//! Laws of the compiler, proved against the interpreter in [`crate::model`].
//! Since [`crate::frontend::compile`] is proved to compute exactly the
//! model's states, each law carries over to the executable compiler.

use vstd::prelude::*;

use crate::backends::Backend;
use crate::model::{
    emit, has_body, has_scope, is_digit, is_int_lit, lemma_scan_append, lookup_method,
    lookup_scope, lookup_vars, m_close, m_close_method, m_close_then, m_compile,
    m_declare_variable, m_dispatch, m_expect_types, m_flush, m_init, m_linkin_arg, m_open,
    m_push_type, m_push_types, m_scan, m_scan_char, names_unique, same_but_log, MethodModel,
    StateModel,
};
use crate::state::{DefinitionTypes, MethodClass, ValueTypes};

verus! {

/// The dedicated closing token of each block kind.
pub open spec fn terminator_token(kind: DefinitionTypes) -> Seq<char> {
    match kind {
        DefinitionTypes::Function => ":fun"@,
        DefinitionTypes::Action => ":act"@,
        DefinitionTypes::Then => ":then"@,
        DefinitionTypes::Elect => ":elect"@,
        DefinitionTypes::Loop => ":loop"@,
        DefinitionTypes::Module => ":module"@,
        _ => ";"@,
    }
}

/// Equivalent terminators: whenever a block of some kind is innermost, the
/// generic terminator `;` (and its synonym `end`) means exactly the same as
/// the block's dedicated `:`-closer, so the two compilations agree from this
/// token on.
#[verifier::rlimit(100)]
pub proof fn lemma_equivalent_terminators<B: Backend>(b: B, s: StateModel, kind: DefinitionTypes)
    requires
        s.defnstack.len() > 0,
        s.defnstack.last() == kind,
        has_body(kind),
    ensures
        m_dispatch(b, s, ";"@) == m_dispatch(b, s, terminator_token(kind)),
        m_dispatch(b, s, "end"@) == m_dispatch(b, s, ";"@),
        m_dispatch(b, s, ";"@) == m_close(b, s, kind),
{
    reveal_strlit("fun:");
    reveal_strlit("fun");
    reveal_strlit("act:");
    reveal_strlit("act");
    reveal_strlit("then:");
    reveal_strlit("then");
    reveal_strlit("elect:");
    reveal_strlit("elect");
    reveal_strlit("when:");
    reveal_strlit("when");
    reveal_strlit("loop:");
    reveal_strlit("loop");
    reveal_strlit("cycle:");
    reveal_strlit("cycle");
    reveal_strlit("module");
    reveal_strlit("var");
    reveal_strlit("linkin");
    reveal_strlit(":fun");
    reveal_strlit(";fun");
    reveal_strlit("endfun");
    reveal_strlit(":act");
    reveal_strlit(":then");
    reveal_strlit(":elect");
    reveal_strlit(":when");
    reveal_strlit(":loop");
    reveal_strlit(":cycle");
    reveal_strlit(":module");
    reveal_strlit(";");
    reveal_strlit("end");
    assert(";"@.len() == 1);
    assert("end"@.len() == 3);
    let t = terminator_token(kind);
    assert(!is_digit(";"@[0]) && !is_int_lit(";"@));
    assert(!is_digit("end"@[0]) && !is_int_lit("end"@));
    assert(!is_digit(t[0]) && !is_int_lit(t));
    assert(m_dispatch(b, s, ";"@) == m_close(b, s, kind)) by {
        assert(!is_digit(";"@[0]));
    }
    assert(m_dispatch(b, s, "end"@) == m_close(b, s, kind)) by {
        assert(!is_digit("end"@[0]));
    }
    match kind {
        DefinitionTypes::Function => {
            assert(m_dispatch(b, s, ":fun"@) == m_close(b, s, kind)) by {
                assert(!is_digit(":fun"@[0]));
            }
        },
        DefinitionTypes::Action => {
            assert(m_dispatch(b, s, ":act"@) == m_close(b, s, kind)) by {
                assert(!is_digit(":act"@[0]));
                assert(":act"@[1] != ":fun"@[1]);
            }
        },
        DefinitionTypes::Then => {
            assert(m_dispatch(b, s, ":then"@) == m_close(b, s, kind)) by {
                assert(!is_digit(":then"@[0]));
            }
        },
        DefinitionTypes::Elect => {
            assert(m_dispatch(b, s, ":elect"@) == m_close(b, s, kind)) by {
                assert(!is_digit(":elect"@[0]));
            }
        },
        DefinitionTypes::Loop => {
            assert(m_dispatch(b, s, ":loop"@) == m_close(b, s, kind)) by {
                assert(!is_digit(":loop"@[0]));
                assert(":loop"@[1] != ":then"@[1]);
                assert(":loop"@[1] != ":when"@[1]);
            }
        },
        DefinitionTypes::Module => {
            assert(m_dispatch(b, s, ":module"@) == m_close(b, s, kind)) by {
                assert(!is_digit(":module"@[0]));
            }
        },
        _ => {},
    }
}

/// Closing a block never reads the token log: two states that agree on
/// everything else close to states that again agree on everything else.
pub proof fn lemma_closer_log_congruence<B: Backend>(
    b: B,
    s1: StateModel,
    s2: StateModel,
    kind: DefinitionTypes,
)
    requires
        same_but_log(s1, s2),
        s1.defnstack.len() > 0,
        s1.defnstack.last() == kind,
        has_body(kind),
    ensures
        m_dispatch(b, s2, terminator_token(kind)) == (StateModel {
            log_tokens: s2.log_tokens,
            ..m_dispatch(b, s1, ";"@)
        }),
{
    lemma_equivalent_terminators(b, s1, kind);
    lemma_equivalent_terminators(b, s2, kind);
    assert(m_close(b, s2, kind) == (StateModel {
        log_tokens: s2.log_tokens,
        ..m_close(b, s1, kind)
    }));
}

/// Word characters accumulate one by one onto a pending word.
pub proof fn lemma_word_accum<B: Backend>(b: B, s: StateModel, cs: Seq<char>)
    requires
        !s.iscomment,
        !s.isstring,
        s.error is None,
        s.word.len() > 0,
        forall|i: int| 0 <= i < cs.len() ==> #[trigger] cs[i] != ' ' && cs[i] != '\t' && cs[i]
            != '\n' && cs[i] != '#' && cs[i] != '"',
    ensures
        m_scan(b, s, cs) == (StateModel { word: s.word + cs, ..s }),
    decreases cs.len(),
{
    if cs.len() == 0 {
        assert(s.word + cs =~= s.word);
        assert((StateModel { word: s.word + cs, ..s }) =~~= s);
    } else {
        let c = cs.first();
        let s1 = StateModel { word: s.word.push(c), ..s };
        assert(m_scan_char(b, s, c) == s1);
        lemma_word_accum(b, s1, cs.drop_first());
        assert(s.word.push(c) + cs.drop_first() =~= s.word + cs);
    }
}

/// A whole word scanned from a clean position: it becomes the pending word,
/// and the diagnostic position is snapshotted where it began.
pub proof fn lemma_word_scan<B: Backend>(b: B, s: StateModel, w: Seq<char>)
    requires
        !s.iscomment,
        !s.isstring,
        s.error is None,
        s.word.len() == 0,
        w.len() > 0,
        forall|i: int| 0 <= i < w.len() ==> #[trigger] w[i] != ' ' && w[i] != '\t' && w[i] != '\n'
            && w[i] != '#' && w[i] != '"',
    ensures
        m_scan(b, s, w) == (StateModel {
            word: w,
            token_line: s.line,
            token_file: s.current_file,
            tokenumber: s.tokenumber + 1,
            ..s
        }),
{
    let c = w.first();
    let s1 = StateModel {
        word: seq![c],
        token_line: s.line,
        token_file: s.current_file,
        tokenumber: s.tokenumber + 1,
        ..s
    };
    assert(m_scan_char(b, s, c) == s1);
    assert(m_scan(b, s, w) == m_scan(b, s1, w.drop_first()));
    lemma_word_accum(b, s1, w.drop_first());
    assert(seq![c] + w.drop_first() =~= w);
}

/// Equivalent terminators over whole programs: if a program ends with an
/// open block, closing it with `;` or with the block's dedicated terminator
/// gives the same compiled output and the same diagnostic.
#[verifier::rlimit(100)]
pub proof fn lemma_terminator_program<B: Backend>(b: B, p: Seq<char>, kind: DefinitionTypes)
    requires
        m_scan(b, m_init(), p).error is None,
        !m_scan(b, m_init(), p).iscomment,
        !m_scan(b, m_init(), p).isstring,
        m_scan(b, m_init(), p).word.len() == 0,
        m_scan(b, m_init(), p).defnstack.len() > 0,
        m_scan(b, m_init(), p).defnstack.last() == kind,
        has_body(kind),
    ensures
        m_compile(b, p + terminator_token(kind)).out == m_compile(b, p + ";"@).out,
        m_compile(b, p + terminator_token(kind)).error == m_compile(b, p + ";"@).error,
{
    reveal_strlit(";");
    reveal_strlit(":fun");
    reveal_strlit(":act");
    reveal_strlit(":then");
    reveal_strlit(":elect");
    reveal_strlit(":loop");
    reveal_strlit(":module");
    let st = m_scan(b, m_init(), p);
    let t = terminator_token(kind);
    lemma_scan_append(b, m_init(), p, ";"@);
    lemma_scan_append(b, m_init(), p, t);
    assert forall|i: int| 0 <= i < ";"@.len() implies #[trigger] ";"@[i] != ' ' && ";"@[i] != '\t'
        && ";"@[i] != '\n' && ";"@[i] != '#' && ";"@[i] != '"' by {
        assert(";"@[0] == ';');
    }
    assert forall|i: int| 0 <= i < t.len() implies #[trigger] t[i] != ' ' && t[i] != '\t' && t[i]
        != '\n' && t[i] != '#' && t[i] != '"' by {
        assert(t[0] == ':');
        if i > 0 {
            assert(t[i] != ' ' && t[i] != '\t' && t[i] != '\n' && t[i] != '#' && t[i] != '"');
        }
    }
    lemma_word_scan(b, st, ";"@);
    lemma_word_scan(b, st, t);
    let base = StateModel {
        word: ";"@,
        token_line: st.line,
        token_file: st.current_file,
        tokenumber: st.tokenumber + 1,
        ..st
    };
    let s_semi = StateModel { word: Seq::empty(), log_tokens: base.log_tokens.push(";"@), ..base };
    let s_term = StateModel { word: Seq::empty(), log_tokens: base.log_tokens.push(t), ..base };
    assert(m_flush(b, m_scan(b, m_init(), p + ";"@)) == m_dispatch(b, s_semi, ";"@));
    assert(m_flush(b, m_scan(b, m_init(), p + t)) == m_dispatch(b, s_term, t));
    assert(same_but_log(s_semi, s_term));
    lemma_closer_log_congruence(b, s_semi, s_term, kind);
    assert(m_dispatch(b, s_term, t) == (StateModel {
        log_tokens: s_term.log_tokens,
        ..m_dispatch(b, s_semi, ";"@)
    }));
}

/// Characters other than `#` and the line break leave a comment-mode state
/// untouched.
pub proof fn lemma_comment_chars<B: Backend>(b: B, s: StateModel, cs: Seq<char>)
    requires
        s.iscomment,
        s.error is None,
        forall|i: int| 0 <= i < cs.len() ==> #[trigger] cs[i] != '#' && cs[i] != '\n',
    ensures
        m_scan(b, s, cs) == s,
    decreases cs.len(),
{
    if cs.len() > 0 {
        assert(m_scan_char(b, s, cs.first()) == s);
        lemma_comment_chars(b, s, cs.drop_first());
    }
}

/// Comment opacity: a comment `# S #` whose text holds neither `#` nor a
/// line break, scanned between tokens, leaves the compile state exactly as
/// it was, so the surrounding program compiles identically with or without
/// it.
pub proof fn lemma_comment_opacity<B: Backend>(b: B, s: StateModel, inner: Seq<char>)
    requires
        !s.iscomment,
        !s.isstring,
        s.error is None,
        forall|i: int| 0 <= i < inner.len() ==> #[trigger] inner[i] != '#' && inner[i] != '\n',
    ensures
        m_scan(b, s, seq!['#'] + inner + seq!['#']) == s,
{
    let s1 = StateModel { iscomment: true, ..s };
    assert(m_scan_char(b, s, '#') == s1);
    lemma_scan_append(b, s, seq!['#'] + inner, seq!['#']);
    lemma_scan_append(b, s, seq!['#'], inner);
    assert(seq!['#'].first() == '#');
    assert(seq!['#'].drop_first() =~= Seq::<char>::empty());
    assert(m_scan(b, s, seq!['#']) == m_scan(b, s1, Seq::<char>::empty()));
    lemma_comment_chars(b, s1, inner);
    assert(m_scan(b, s1, seq!['#']) == m_scan(b, m_scan_char(b, s1, '#'), Seq::<char>::empty()));
    assert(m_scan_char(b, s1, '#') =~~= s);
}

/// The same comment placed between tokens of a full program changes nothing
/// about what the program compiles to.
pub proof fn lemma_comment_insert<B: Backend>(
    b: B,
    before: Seq<char>,
    after: Seq<char>,
    inner: Seq<char>,
)
    requires
        !m_scan(b, m_init(), before).iscomment,
        !m_scan(b, m_init(), before).isstring,
        m_scan(b, m_init(), before).error is None,
        forall|i: int| 0 <= i < inner.len() ==> #[trigger] inner[i] != '#' && inner[i] != '\n',
    ensures
        m_compile(b, before + (seq!['#'] + inner + seq!['#']) + after) == m_compile(
            b,
            before + after,
        ),
{
    let st = m_scan(b, m_init(), before);
    let comment = seq!['#'] + inner + seq!['#'];
    lemma_scan_append(b, m_init(), before + comment, after);
    lemma_scan_append(b, m_init(), before, comment);
    lemma_scan_append(b, m_init(), before, after);
    lemma_comment_opacity(b, st, inner);
    assert((before + comment) + after =~= before + (seq!['#'] + inner + seq!['#']) + after);
    assert(m_scan(b, m_init(), before + (seq!['#'] + inner + seq!['#']) + after) == m_scan(
        b,
        m_init(),
        before + after,
    ));
}

/// Characters other than the quote accumulate into the literal and touch
/// nothing else; a line break would additionally advance the position.
pub proof fn lemma_string_chars<B: Backend>(b: B, s: StateModel, cs: Seq<char>)
    requires
        s.isstring,
        !s.iscomment,
        s.error is None,
        forall|i: int| 0 <= i < cs.len() ==> #[trigger] cs[i] != '"' && cs[i] != '\n',
    ensures
        m_scan(b, s, cs) == (StateModel { newstring: s.newstring + cs, ..s }),
    decreases cs.len(),
{
    if cs.len() == 0 {
        assert(s.newstring + cs =~= s.newstring);
        assert((StateModel { newstring: s.newstring + cs, ..s }) =~~= s);
    } else {
        let c = cs.first();
        let s1 = StateModel { newstring: s.newstring.push(c), ..s };
        assert(m_scan_char(b, s, c) == s1);
        lemma_string_chars(b, s1, cs.drop_first());
        assert(s.newstring.push(c) + cs.drop_first() =~= s.newstring + cs);
    }
}

/// String opacity: the characters of a quoted literal, keywords and `#`
/// included, trigger no comment and no dispatch.  Scanning `"L"` amounts
/// precisely to pushing the `Text` type and emitting the backend's string
/// push of `L`: every other component of the state is untouched.
pub proof fn lemma_string_opacity<B: Backend>(b: B, s: StateModel, lit: Seq<char>)
    requires
        !s.iscomment,
        !s.isstring,
        s.error is None,
        s.newstring.len() == 0,
        s.typestack.len() > 0,
        forall|i: int| 0 <= i < lit.len() ==> #[trigger] lit[i] != '"' && lit[i] != '\n',
    ensures
        m_scan(b, s, seq!['"'] + lit + seq!['"']) == emit(
            m_push_type(s, ValueTypes::Text),
            b.s_push_string(lit),
        ),
{
    let s1 = StateModel { isstring: true, ..s };
    assert(m_scan_char(b, s, '"') == s1);
    lemma_scan_append(b, s, seq!['"'] + lit, seq!['"']);
    lemma_scan_append(b, s, seq!['"'], lit);
    assert(seq!['"'].first() == '"');
    assert(seq!['"'].drop_first() =~= Seq::<char>::empty());
    assert(m_scan(b, s, seq!['"']) == m_scan(b, s1, Seq::<char>::empty()));
    lemma_string_chars(b, s1, lit);
    let s2 = StateModel { newstring: s1.newstring + lit, ..s1 };
    assert(s1.newstring + lit =~= lit);
    assert(m_scan(b, s2, seq!['"']) == m_scan(b, m_scan_char(b, s2, '"'), Seq::<char>::empty()));
    let s3 = StateModel { isstring: false, newstring: Seq::empty(), ..s2 };
    assert(m_push_type(s3, ValueTypes::Text) =~~= (StateModel {
        isstring: false,
        newstring: Seq::empty(),
        typestack: s.typestack.update(
            s.typestack.len() - 1,
            s.typestack.last().push(ValueTypes::Text),
        ),
        ..s
    }));
    assert(m_scan_char(b, s2, '"') =~~= emit(m_push_type(s, ValueTypes::Text), b.s_push_string(lit)));
}

/// Looking a name up after one more registration: an already-present name
/// still resolves to its old record.
pub proof fn lemma_lookup_push(ms: Seq<MethodModel>, m: MethodModel, name: Seq<char>)
    ensures
        lookup_method(ms.push(m), name) == (match lookup_method(ms, name) {
            Some(x) => Some(x),
            None => if m.name == name {
                Some(m)
            } else {
                None
            },
        }),
    decreases ms.len(),
{
    if ms.len() == 0 {
        assert(ms.push(m).first() == m);
        assert(ms.push(m).drop_first() =~= Seq::<MethodModel>::empty());
    } else {
        assert(ms.push(m).first() == ms.first());
        assert(ms.push(m).drop_first() =~= ms.drop_first().push(m));
        lemma_lookup_push(ms.drop_first(), m, name);
    }
}

/// One token can only extend the symbol table: a method already defined
/// still resolves to exactly the same record afterwards.
#[verifier::rlimit(100)]
pub proof fn lemma_dispatch_monotone<B: Backend>(
    b: B,
    s: StateModel,
    w: Seq<char>,
    name: Seq<char>,
)
    requires
        lookup_method(s.methods, name) is Some,
    ensures
        lookup_method(m_dispatch(b, s, w).methods, name) == lookup_method(s.methods, name),
{
    let r = m_dispatch(b, s, w);
    assert forall|ms: Seq<MethodModel>, m: MethodModel|
        lookup_method(ms, name) is Some implies #[trigger] lookup_method(ms.push(m), name)
            == lookup_method(ms, name) by {
        lemma_lookup_push(ms, m, name);
    }
    if lookup_method(s.methods, w) is Some {
        let mm = lookup_method(s.methods, w).unwrap();
        crate::model::lemma_expect_shape(s, mm.itypes);
        crate::model::lemma_push_types_shape(m_expect_types(s, mm.itypes), mm.etypes);
    }
    if s.defnstack.len() > 0 && s.defnstack.last() == DefinitionTypes::Variable {
        // variable declaration never touches the method table
    }
    if lookup_vars(s.varscopes, w.drop_first()) is Some {
        // reading a variable never touches the method table
    }
    if lookup_vars(s.varscopes, w.drop_last()) is Some {
        let t = lookup_vars(s.varscopes, w.drop_last()).unwrap();
        crate::model::lemma_expect_shape(s, seq![t]);
    }
    let num = seq![ValueTypes::Number];
    let num2 = seq![ValueTypes::Number, ValueTypes::Number];
    let bin = seq![ValueTypes::Binary];
    let bin2 = seq![ValueTypes::Binary, ValueTypes::Binary];
    crate::model::lemma_expect_shape(s, bin);
    crate::model::lemma_expect_shape(s, num2);
    crate::model::lemma_expect_shape(s, bin2);
    crate::model::lemma_push_types_shape(m_expect_types(s, num2), num);
    crate::model::lemma_push_types_shape(m_expect_types(s, bin), bin);
    crate::model::lemma_push_types_shape(m_expect_types(s, bin2), bin);
    crate::model::lemma_push_types_shape(m_expect_types(s, num2), bin);
    let (cs1, ct) = crate::model::m_pop_type(s);
    crate::model::lemma_push_types_shape(cs1, seq![ct, ct]);
    let (ss2, u2) = crate::model::m_pop_type(cs1);
    crate::model::lemma_push_types_shape(ss2, seq![ct, u2]);
    crate::model::lemma_push_types_shape(ss2, bin);
    assert(lookup_method(r.methods, name) == lookup_method(s.methods, name));
}

/// Symbol-table monotonicity over a whole scan: once a method is defined it
/// stays defined, with the same record, to the end of the compilation.
pub proof fn lemma_symbol_monotone<B: Backend>(
    b: B,
    s: StateModel,
    cs: Seq<char>,
    name: Seq<char>,
)
    requires
        lookup_method(s.methods, name) is Some,
    ensures
        lookup_method(m_scan(b, s, cs).methods, name) == lookup_method(s.methods, name),
    decreases cs.len(),
{
    if cs.len() > 0 {
        lemma_scan_char_monotone(b, s, cs.first(), name);
        lemma_symbol_monotone(b, m_scan_char(b, s, cs.first()), cs.drop_first(), name);
    }
}

/// One input character can only extend the symbol table.
pub proof fn lemma_scan_char_monotone<B: Backend>(b: B, s: StateModel, c: char, name: Seq<char>)
    requires
        lookup_method(s.methods, name) is Some,
    ensures
        lookup_method(m_scan_char(b, s, c).methods, name) == lookup_method(s.methods, name),
{
    if s.error is None && !s.iscomment && !s.isstring && (c == ' ' || c == '\t' || c == '\n') {
        lemma_flush_monotone(b, s, name);
    }
}

/// Completing a pending word can only extend the symbol table.
pub proof fn lemma_flush_monotone<B: Backend>(b: B, s: StateModel, name: Seq<char>)
    requires
        lookup_method(s.methods, name) is Some,
    ensures
        lookup_method(m_flush(b, s).methods, name) == lookup_method(s.methods, name),
{
    if s.error is None && s.word.len() > 0 {
        let s1 = StateModel { word: Seq::empty(), log_tokens: s.log_tokens.push(s.word), ..s };
        lemma_dispatch_monotone(b, s1, s.word, name);
    }
}

/// Redefinition is always rejected: a function or action close whose
/// declared name is already in the symbol table raises a fatal diagnostic
/// instead of registering anything.
pub proof fn lemma_redefinition_rejected<B: Backend>(b: B, s: StateModel, class: MethodClass)
    requires
        s.metastack.len() > 0,
        s.metastack.last().len() > 0,
        lookup_method(s.methods, s.metastack.last().first()) is Some,
    ensures
        m_close_method(b, s, class).error is Some,
        m_close_method(b, s, class).methods == s.methods,
{
}

/// Scope nesting: a variable visible only in the scope a function, action or
/// guarded block opened is not visible once that block closes.
pub proof fn lemma_scope_exit<B: Backend>(b: B, s: StateModel, name: Seq<char>)
    requires
        s.defnstack.len() > 0,
        has_scope(s.defnstack.last()),
        lookup_vars(s.varscopes.drop_last(), name) is None,
        m_close(b, s, s.defnstack.last()).error is None,
    ensures
        lookup_vars(m_close(b, s, s.defnstack.last()).varscopes, name) is None,
{
    let kind = s.defnstack.last();
    if kind == DefinitionTypes::Function {
        assert(m_close(b, s, kind).varscopes == s.varscopes.drop_last());
    } else if kind == DefinitionTypes::Action {
        assert(m_close(b, s, kind).varscopes == s.varscopes.drop_last());
    } else {
        assert(kind == DefinitionTypes::Then);
        assert(m_close(b, s, kind).varscopes == s.varscopes.drop_last());
    }
}

/// The declared stack effect of the fixed-effect builtins.
pub open spec fn builtin_effect(w: Seq<char>) -> Option<(Seq<ValueTypes>, Seq<ValueTypes>)> {
    let num = seq![ValueTypes::Number];
    let num2 = seq![ValueTypes::Number, ValueTypes::Number];
    let bin = seq![ValueTypes::Binary];
    let bin2 = seq![ValueTypes::Binary, ValueTypes::Binary];
    if w == "+"@ || w == "-"@ || w == "*"@ || w == "/"@ || w == "mod"@ {
        Some((num2, num))
    } else if w == "not"@ {
        Some((bin, bin))
    } else if w == "either?"@ || w == "both?"@ {
        Some((bin2, bin))
    } else if w == ">?"@ || w == "greater?"@ || w == ">=?"@ || w == "<?"@ || w == "=<?"@ {
        Some((num2, bin))
    } else {
        None
    }
}

/// What one declared effect does to the pair of void demands and operand
/// frame: consumed types drain the frame from the top, a mismatch is a type
/// error, a shortfall becomes a demand, and the produced types go on top.
pub open spec fn drain(v: Seq<ValueTypes>, f: Seq<ValueTypes>, c: Seq<ValueTypes>) -> Option<
    (Seq<ValueTypes>, Seq<ValueTypes>),
>
    decreases c.len(),
{
    if c.len() == 0 {
        Some((v, f))
    } else if f.len() > 0 {
        if f.last() == c.first() {
            drain(v, f.drop_last(), c.drop_first())
        } else {
            None
        }
    } else {
        drain(v.push(c.first()), f, c.drop_first())
    }
}

/// The composed effect: drain the consumption, then append the production.
pub open spec fn eff_apply(
    v: Seq<ValueTypes>,
    f: Seq<ValueTypes>,
    c: Seq<ValueTypes>,
    p: Seq<ValueTypes>,
) -> Option<(Seq<ValueTypes>, Seq<ValueTypes>)> {
    match drain(v, f, c) {
        None => None,
        Some((v1, f1)) => Some((v1, f1 + p)),
    }
}

/// Draining expectations computes exactly `drain` on the innermost frames.
pub proof fn lemma_expect_is_drain(s: StateModel, c: Seq<ValueTypes>)
    requires
        s.error is None,
        s.typestack.len() > 0,
        s.voidstack.len() > 0,
    ensures
        ({
            let r = m_expect_types(s, c);
            match drain(s.voidstack.last(), s.typestack.last(), c) {
                Some((v1, f1)) => r.error is None && r.typestack.last() == f1
                    && r.voidstack.last() == v1 && r.typestack.len() == s.typestack.len()
                    && r.voidstack.len() == s.voidstack.len(),
                None => r.error is Some,
            }
        }),
    decreases c.len(),
{
    if c.len() > 0 {
        let f = s.typestack.last();
        if f.len() > 0 {
            if f.last() == c.first() {
                let s1 = StateModel {
                    typestack: s.typestack.update(s.typestack.len() - 1, f.drop_last()),
                    ..s
                };
                lemma_expect_is_drain(s1, c.drop_first());
            }
        } else {
            let s1 = StateModel {
                voidstack: s.voidstack.update(
                    s.voidstack.len() - 1,
                    s.voidstack.last().push(c.first()),
                ),
                ..s
            };
            lemma_expect_is_drain(s1, c.drop_first());
        }
    }
}

/// Pushing produced types appends them to the innermost frame.
pub proof fn lemma_push_is_append(s: StateModel, p: Seq<ValueTypes>)
    requires
        s.error is None,
        s.typestack.len() > 0,
    ensures
        m_push_types(s, p).error is None,
        m_push_types(s, p).typestack.len() == s.typestack.len(),
        m_push_types(s, p).typestack.last() == s.typestack.last() + p,
        m_push_types(s, p).voidstack == s.voidstack,
    decreases p.len(),
{
    if p.len() == 0 {
        assert(s.typestack.last() + p =~= s.typestack.last());
    } else {
        let s1 = m_push_type(s, p.first());
        lemma_push_is_append(s1, p.drop_first());
        assert(s.typestack.last().push(p.first()) + p.drop_first() =~= s.typestack.last() + p);
    }
}

/// Type preservation, per token: a builtin with declared effect `(c, p)`
/// transforms the innermost void and operand frames by exactly `eff_apply`
/// of that effect — so the net stack effect of a block is the composition of
/// its tokens' declared effects — and a type error arises exactly where the
/// composition is undefined.
pub proof fn lemma_builtin_effect(
    s: StateModel,
    c: Seq<ValueTypes>,
    p: Seq<ValueTypes>,
    frag: Seq<char>,
)
    requires
        s.error is None,
        s.typestack.len() > 0,
        s.voidstack.len() > 0,
    ensures
        ({
            let r = crate::model::m_builtin(s, c, p, frag);
            match eff_apply(s.voidstack.last(), s.typestack.last(), c, p) {
                Some((v1, f1)) => r.error is None && r.typestack.last() == f1
                    && r.voidstack.last() == v1 && r.typestack.len() == s.typestack.len()
                    && r.voidstack.len() == s.voidstack.len(),
                None => r.error is Some,
            }
        }),
{
    lemma_expect_is_drain(s, c);
    let s1 = m_expect_types(s, c);
    if drain(s.voidstack.last(), s.typestack.last(), c) is Some {
        lemma_push_is_append(s1, p);
    }
}

/// A function or action close registers as the method's stack effect exactly
/// the accumulated void demands (consumed types) and the final operand frame
/// (produced types) of its body.
pub proof fn lemma_close_registers_effect<B: Backend>(b: B, s: StateModel, class: MethodClass)
    requires
        s.metastack.len() > 0,
        s.metastack.last().len() > 0,
        s.typestack.len() > 0,
        s.voidstack.len() > 0,
        m_close_method(b, s, class).error is None,
    ensures
        ({
            let r = m_close_method(b, s, class);
            let m = r.methods.last();
            &&& r.methods == s.methods.push(m)
            &&& m.name == s.metastack.last().first()
            &&& m.itypes == s.voidstack.last()
            &&& m.etypes == s.typestack.last()
            &&& m.class == class
        }),
{
}

// ---------------------------------------------------------------------------
// Name uniqueness
// ---------------------------------------------------------------------------
/// A scope in which a lookup fails holds no binding of that name.
pub proof fn lemma_scope_none_no_entry(sc: Seq<(Seq<char>, ValueTypes)>, n: Seq<char>)
    requires
        lookup_scope(sc, n) is None,
    ensures
        forall|p: int| 0 <= p < sc.len() ==> (#[trigger] sc[p].0) != n,
    decreases sc.len(),
{
    if sc.len() > 0 {
        lemma_scope_none_no_entry(sc.drop_first(), n);
        assert forall|p: int| 0 <= p < sc.len() implies (#[trigger] sc[p].0) != n by {
            if p > 0 {
                assert(sc.drop_first()[p - 1] == sc[p]);
            }
        }
    }
}

/// A method table in which a lookup fails holds no record of that name.
pub proof fn lemma_method_none_no_entry(ms: Seq<MethodModel>, n: Seq<char>)
    requires
        lookup_method(ms, n) is None,
    ensures
        forall|i: int| 0 <= i < ms.len() ==> (#[trigger] ms[i].name) != n,
    decreases ms.len(),
{
    if ms.len() > 0 {
        lemma_method_none_no_entry(ms.drop_first(), n);
        assert forall|i: int| 0 <= i < ms.len() implies (#[trigger] ms[i].name) != n by {
            if i > 0 {
                assert(ms.drop_first()[i - 1] == ms[i]);
            }
        }
    }
}

/// Looking a name up in a scope after one more binding.
pub proof fn lemma_scope_lookup_push(
    sc: Seq<(Seq<char>, ValueTypes)>,
    e: (Seq<char>, ValueTypes),
    n: Seq<char>,
)
    ensures
        lookup_scope(sc.push(e), n) == (match lookup_scope(sc, n) {
            Some(t) => Some(t),
            None => if e.0 == n {
                Some(e.1)
            } else {
                None
            },
        }),
    decreases sc.len(),
{
    if sc.len() == 0 {
        assert(sc.push(e).first() == e);
        assert(sc.push(e).drop_first() =~= Seq::<(Seq<char>, ValueTypes)>::empty());
    } else {
        assert(sc.push(e).first() == sc.first());
        assert(sc.push(e).drop_first() =~= sc.drop_first().push(e));
        lemma_scope_lookup_push(sc.drop_first(), e, n);
    }
}

/// A name invisible overall is absent from each scope separately.
pub proof fn lemma_vars_none_each(scopes: Seq<Seq<(Seq<char>, ValueTypes)>>, n: Seq<char>)
    requires
        lookup_vars(scopes, n) is None,
    ensures
        forall|i: int| 0 <= i < scopes.len() ==> (#[trigger] lookup_scope(scopes[i], n)) is None,
    decreases scopes.len(),
{
    if scopes.len() > 0 {
        lemma_vars_none_each(scopes.drop_last(), n);
        assert forall|i: int| 0 <= i < scopes.len() implies (#[trigger] lookup_scope(
            scopes[i],
            n,
        )) is None by {
            if i < scopes.len() - 1 {
                assert(scopes.drop_last()[i] == scopes[i]);
            }
        }
    }
}

/// The initial state binds no names at all.
pub proof fn lemma_init_unique()
    ensures
        names_unique(m_init()),
{
    let s = m_init();
    assert forall|n: Seq<char>| (#[trigger] lookup_method(s.methods, n)) is Some implies
        lookup_vars(s.varscopes, n) is None by {
        assert(lookup_method(s.methods, n) is None);
    }
}

/// Dropping the innermost scope, with the method table unchanged, keeps the
/// name-uniqueness invariant.
pub proof fn lemma_unique_after_drop(s: StateModel, r: StateModel)
    requires
        names_unique(s),
        s.varscopes.len() > 0,
        r.methods == s.methods,
        r.varscopes == s.varscopes.drop_last(),
    ensures
        names_unique(r),
{
    assert forall|n: Seq<char>| (#[trigger] lookup_method(r.methods, n)) is Some implies
        lookup_vars(r.varscopes, n) is None by {
        assert(lookup_vars(s.varscopes, n) is None);
    }
    assert forall|i: int, j: int, n: Seq<char>| 0 <= i < j < r.varscopes.len() implies !((
    #[trigger] lookup_scope(r.varscopes[i], n)) is Some && (#[trigger] lookup_scope(
        r.varscopes[j],
        n,
    )) is Some) by {
        assert(r.varscopes[i] == s.varscopes[i]);
        assert(r.varscopes[j] == s.varscopes[j]);
    }
    assert forall|i: int, p: int, q: int|
        0 <= i < r.varscopes.len() && 0 <= p < q < r.varscopes[i].len() implies (
    #[trigger] r.varscopes[i][p].0) != (#[trigger] r.varscopes[i][q].0) by {
        assert(r.varscopes[i] == s.varscopes[i]);
    }
}

/// Opening any block keeps the name-uniqueness invariant: a fresh scope
/// binds nothing.
pub proof fn lemma_open_unique(s: StateModel, kind: DefinitionTypes)
    requires
        names_unique(s),
    ensures
        names_unique(m_open(s, kind)),
{
    let r = m_open(s, kind);
    if crate::model::has_scope(kind) {
        assert forall|n: Seq<char>| (#[trigger] lookup_method(r.methods, n)) is Some implies
            lookup_vars(r.varscopes, n) is None by {
            assert(r.varscopes.last() =~= Seq::<(Seq<char>, ValueTypes)>::empty());
            assert(lookup_scope(r.varscopes.last(), n) is None);
            assert(r.varscopes.drop_last() =~= s.varscopes);
            assert(lookup_vars(s.varscopes, n) is None);
        }
        assert forall|i: int, j: int, n: Seq<char>| 0 <= i < j < r.varscopes.len() implies !((
        #[trigger] lookup_scope(r.varscopes[i], n)) is Some && (#[trigger] lookup_scope(
            r.varscopes[j],
            n,
        )) is Some) by {
            if j < r.varscopes.len() - 1 {
                assert(r.varscopes[i] == s.varscopes[i]);
                assert(r.varscopes[j] == s.varscopes[j]);
            } else {
                assert(r.varscopes[j] =~= Seq::<(Seq<char>, ValueTypes)>::empty());
                assert(lookup_scope(r.varscopes[j], n) is None);
            }
        }
        assert forall|i: int, p: int, q: int|
            0 <= i < r.varscopes.len() && 0 <= p < q < r.varscopes[i].len() implies (
        #[trigger] r.varscopes[i][p].0) != (#[trigger] r.varscopes[i][q].0) by {
            assert(r.varscopes[i] == s.varscopes[i]);
        }
    }
}

/// Declaring a variable keeps the name-uniqueness invariant: the name was
/// checked against the method table and every visible scope first.
pub proof fn lemma_declare_variable_unique<B: Backend>(b: B, s: StateModel, w: Seq<char>)
    requires
        names_unique(s),
        s.varscopes.len() > 0,
        m_declare_variable(b, s, w).error is None,
    ensures
        names_unique(m_declare_variable(b, s, w)),
{
    let r = m_declare_variable(b, s, w);
    let (s1, t) = crate::model::m_pop_type(s);
    let e = (w, t);
    let old_last = s.varscopes.last();
    lemma_vars_none_each(s.varscopes, w);
    lemma_scope_none_no_entry(old_last, w);
    assert(r.varscopes == s.varscopes.update(s.varscopes.len() - 1, old_last.push(e)));
    assert(r.varscopes.last() == old_last.push(e));
    assert(r.varscopes.drop_last() =~= s.varscopes.drop_last());
    assert forall|n: Seq<char>| (#[trigger] lookup_method(r.methods, n)) is Some implies
        lookup_vars(r.varscopes, n) is None by {
        assert(lookup_vars(s.varscopes, n) is None);
        assert(n != w);
        lemma_scope_lookup_push(old_last, e, n);
        assert(lookup_scope(r.varscopes.last(), n) is None);
    }
    assert forall|i: int, j: int, n: Seq<char>| 0 <= i < j < r.varscopes.len() implies !((
    #[trigger] lookup_scope(r.varscopes[i], n)) is Some && (#[trigger] lookup_scope(
        r.varscopes[j],
        n,
    )) is Some) by {
        if j < r.varscopes.len() - 1 {
            assert(r.varscopes[i] == s.varscopes[i]);
            assert(r.varscopes[j] == s.varscopes[j]);
        } else {
            assert(r.varscopes[i] == s.varscopes[i]);
            lemma_scope_lookup_push(old_last, e, n);
            if lookup_scope(r.varscopes[j], n) is Some {
                if lookup_scope(old_last, n) is Some {
                    assert(s.varscopes[j] == old_last);
                } else {
                    assert(n == w);
                    assert(lookup_scope(s.varscopes[i], w) is None);
                }
            }
        }
    }
    assert forall|i: int, p: int, q: int|
        0 <= i < r.varscopes.len() && 0 <= p < q < r.varscopes[i].len() implies (
    #[trigger] r.varscopes[i][p].0) != (#[trigger] r.varscopes[i][q].0) by {
        if i < r.varscopes.len() - 1 {
            assert(r.varscopes[i] == s.varscopes[i]);
        } else {
            assert(r.varscopes[i] == old_last.push(e));
            if q < old_last.len() {
                assert(old_last.push(e)[p] == old_last[p]);
                assert(old_last.push(e)[q] == old_last[q]);
                assert(s.varscopes[i] == old_last);
            } else {
                assert(old_last.push(e)[q] == e);
                assert(old_last.push(e)[p] == old_last[p]);
                assert(old_last[p].0 != w);
            }
        }
    }
}

/// Registering an externally linked method keeps the name-uniqueness
/// invariant: the name was checked against the method table and every
/// visible scope first.
pub proof fn lemma_linkin_unique<B: Backend>(b: B, s: StateModel, w: Seq<char>)
    requires
        names_unique(s),
        s.metastack.len() > 0,
        m_linkin_arg(b, s, w).error is None,
    ensures
        names_unique(m_linkin_arg(b, s, w)),
{
    let r = m_linkin_arg(b, s, w);
    if s.metastack.last().len() > 0 {
        let m = r.methods.last();
        assert(r.methods == s.methods.push(m));
        assert(m.name == w);
        lemma_method_none_no_entry(s.methods, w);
        assert forall|i: int, j: int| 0 <= i < j < r.methods.len() implies (
        #[trigger] r.methods[i].name) != (#[trigger] r.methods[j].name) by {
            assert(r.methods[i] == s.methods[i]);
            if j < r.methods.len() - 1 {
                assert(r.methods[j] == s.methods[j]);
            }
        }
        assert forall|n: Seq<char>| (#[trigger] lookup_method(r.methods, n)) is Some implies
            lookup_vars(r.varscopes, n) is None by {
            lemma_lookup_push(s.methods, m, n);
            if lookup_method(s.methods, n) is None {
                assert(n == w);
            }
        }
    }
}

/// Closing a function or action keeps the name-uniqueness invariant.  The
/// registered name was checked against the method table here and against
/// every visible scope when it was captured; the scopes outside the block
/// gain nothing while it is open, which the last hypothesis records.
pub proof fn lemma_close_method_unique<B: Backend>(b: B, s: StateModel, class: MethodClass)
    requires
        names_unique(s),
        s.metastack.len() > 0,
        s.metastack.last().len() > 0,
        s.varscopes.len() > 0,
        m_close_method(b, s, class).error is None,
        lookup_vars(s.varscopes.drop_last(), s.metastack.last().first()) is None,
    ensures
        names_unique(m_close_method(b, s, class)),
{
    let r = m_close_method(b, s, class);
    let name = s.metastack.last().first();
    let m = r.methods.last();
    assert(r.methods == s.methods.push(m));
    assert(m.name == name);
    assert(r.varscopes == s.varscopes.drop_last());
    lemma_method_none_no_entry(s.methods, name);
    assert forall|i: int, j: int| 0 <= i < j < r.methods.len() implies (
    #[trigger] r.methods[i].name) != (#[trigger] r.methods[j].name) by {
        assert(r.methods[i] == s.methods[i]);
        if j < r.methods.len() - 1 {
            assert(r.methods[j] == s.methods[j]);
        }
    }
    assert forall|n: Seq<char>| (#[trigger] lookup_method(r.methods, n)) is Some implies
        lookup_vars(r.varscopes, n) is None by {
        lemma_lookup_push(s.methods, m, n);
        if lookup_method(s.methods, n) is Some {
            assert(lookup_vars(s.varscopes, n) is None);
        } else {
            assert(n == name);
        }
    }
    assert forall|i: int, j: int, n: Seq<char>| 0 <= i < j < r.varscopes.len() implies !((
    #[trigger] lookup_scope(r.varscopes[i], n)) is Some && (#[trigger] lookup_scope(
        r.varscopes[j],
        n,
    )) is Some) by {
        assert(r.varscopes[i] == s.varscopes[i]);
        assert(r.varscopes[j] == s.varscopes[j]);
    }
    assert forall|i: int, p: int, q: int|
        0 <= i < r.varscopes.len() && 0 <= p < q < r.varscopes[i].len() implies (
    #[trigger] r.varscopes[i][p].0) != (#[trigger] r.varscopes[i][q].0) by {
        assert(r.varscopes[i] == s.varscopes[i]);
    }
}

/// Closing a guarded block keeps the name-uniqueness invariant: its scope is
/// dropped and the tables are untouched.
pub proof fn lemma_close_then_unique<B: Backend>(b: B, s: StateModel)
    requires
        names_unique(s),
        s.varscopes.len() > 0,
    ensures
        names_unique(m_close_then(b, s)),
{
    lemma_unique_after_drop(s, m_close_then(b, s));
}

} // verus!
