//! The single-pass front-end: a streaming tokenizer fused with the
//! block-structured compiler.  Every function here is proved to compute
//! exactly the state transition that the interpreter in [`crate::model`]
//! describes.

use vstd::prelude::*;
use vstd::string::StrSliceExecFns;
use vstd::string::StringExecFns;

use crate::backends::Backend;
use crate::errors::{CompileError, ErrorKind};
use crate::model::{
    all_digits, emit, is_digit, is_int_lit, lemma_counts_nonneg, lemma_contains_drop,
    lemma_expect_shape, lemma_push_types_shape, lemma_scan_append, lemma_scan_frozen,
    lemma_wf_open, lookup_method, lookup_vars, m_builtin, m_builtin_copy, m_builtin_drop,
    m_builtin_equality, m_builtin_swap, m_call_method, m_capture_name, m_close, m_close_elect,
    m_close_loop, m_close_method, m_close_module, m_close_then, m_closer, m_compile,
    m_declare_variable, m_dispatch, m_expect_types, m_flush, m_init, m_linkin_arg, m_open,
    m_pop_type, m_push_type, m_push_types, m_read_variable, m_scan, m_scan_char,
    m_write_variable, set_error, wf, MethodModel, StateModel,
};
use crate::state::{clone_types, methods_m, DefinitionTypes, Method, MethodClass, ValueTypes};
use crate::strutil::{str_eq, string_push_char};

pub use crate::state::CompileState;

verus! {

broadcast use
    crate::model::lemma_count_bodies_nonneg,
    crate::model::lemma_count_scopes_nonneg,
    crate::model::lemma_count_frames_nonneg,
;

/// Turns borrowed string slices into owned strings.
pub fn make_strings(v: Vec<&str>) -> (r: Vec<String>)
    ensures
        r.deep_view() == v.deep_view(),
{
    let mut r: Vec<String> = Vec::new();
    let mut i: usize = 0;
    while i < v.len()
        invariant
            i <= v@.len(),
            r@.len() == i,
            r.deep_view() == v.deep_view().take(i as int),
        decreases v@.len() - i,
    {
        let s = v[i];
        r.push(s.to_owned());
        proof {
            assert(r@.len() == i + 1);
            assert(r.deep_view()[i as int] == v.deep_view()[i as int]);
            assert forall|j: int| 0 <= j < i + 1 implies r.deep_view()[j] == v.deep_view().take(
                i + 1 as int,
            )[j] by {
                if j < i {
                    assert(r.deep_view()[j] == v.deep_view().take(i as int)[j]);
                }
            }
            assert(r.deep_view() =~= v.deep_view().take(i + 1 as int));
        }
        i += 1;
    }
    proof {
        assert(v.deep_view().take(v.deep_view().len() as int) =~= v.deep_view());
    }
    r
}

/// Whether a token is an integer literal: an optional leading minus sign
/// followed by one or more digits.
pub fn is_int_literal(w: &str) -> (r: bool)
    ensures
        r == is_int_lit(w@),
{
    let n = w.unicode_len();
    if n == 0 {
        return false;
    }
    let c0 = w.get_char(0);
    if c0 == '-' && n == 1 {
        return false;
    }
    let start: usize = if c0 == '-' {
        1
    } else {
        0
    };
    let mut i: usize = start;
    while i < n
        invariant
            n == w@.len(),
            n > 0,
            start == if w@[0] == '-' {
                1int
            } else {
                0int
            },
            w@[0] == '-' ==> n > 1,
            start <= i <= n,
            forall|j: int| start <= j < i ==> is_digit(#[trigger] w@[j]),
        decreases n - i,
    {
        let c = w.get_char(i);
        if !(c >= '0' && c <= '9') {
            proof {
                assert(!is_digit(w@[i as int]));
                if w@[0] == '-' {
                    assert(w@.drop_first()[i - 1 as int] == w@[i as int]);
                    assert(!all_digits(w@.drop_first()));
                } else {
                    assert(!all_digits(w@));
                }
            }
            return false;
        }
        i += 1;
    }
    proof {
        if w@[0] == '-' {
            assert forall|j: int| 0 <= j < w@.drop_first().len() implies is_digit(
                #[trigger] w@.drop_first()[j],
            ) by {
                assert(w@.drop_first()[j] == w@[j + 1]);
            }
        }
    }
    true
}

/// Finds a registered method by name, returning its index.
pub fn find_method(methods: &Vec<Method>, name: &str) -> (r: Option<usize>)
    ensures
        match r {
            Some(i) => i < methods@.len() && methods@[i as int].name@ == name@ && lookup_method(
                methods_m(*methods),
                name@,
            ) == Some(methods@[i as int].m()),
            None => lookup_method(methods_m(*methods), name@) is None,
        },
{
    let ghost mm = methods_m(*methods);
    proof {
        assert(mm.skip(0int) =~= mm);
    }
    let mut j: usize = 0;
    while j < methods.len()
        invariant
            j <= methods@.len(),
            mm == methods_m(*methods),
            lookup_method(mm, name@) == lookup_method(mm.skip(j as int), name@),
        decreases methods@.len() - j,
    {
        proof {
            assert(mm.skip(j as int).first() == mm[j as int]);
            assert(mm.skip(j as int).drop_first() =~= mm.skip(j + 1 as int));
        }
        if str_eq(methods[j].name.as_str(), name) {
            return Some(j);
        }
        j += 1;
    }
    proof {
        assert(mm.skip(methods@.len() as int) =~= Seq::<MethodModel>::empty());
    }
    None
}

/// Opens a block: pushes its kind and metadata slot and grows whichever
/// parallel stacks the kind owns.
fn do_open(cs: &mut CompileState, kind: DefinitionTypes)
    requires
        wf(old(cs).m()),
        kind != DefinitionTypes::Negative,
    ensures
        final(cs).m() == m_open(old(cs).m(), kind),
        wf(final(cs).m()),
        final(cs).linenumber == old(cs).linenumber,
        final(cs).tokenumber == old(cs).tokenumber,
        final(cs).token_line == old(cs).token_line,
{
    let ghost s0 = cs.m();
    cs.defnstack.push(kind);
    cs.grow_metastack();
    let body = matches!(
        kind,
        DefinitionTypes::Function
        | DefinitionTypes::Action
        | DefinitionTypes::Then
        | DefinitionTypes::Elect
        | DefinitionTypes::Loop
        | DefinitionTypes::Module
    );
    if body {
        cs.grow_bodystack();
    }
    let scope = matches!(
        kind,
        DefinitionTypes::Function | DefinitionTypes::Action | DefinitionTypes::Then
    );
    if scope {
        cs.grow_varscopes();
    }
    let frame = matches!(kind, DefinitionTypes::Function | DefinitionTypes::Action);
    if frame {
        cs.grow_typestack();
        cs.grow_voidstack();
    }
    proof {
        assert(cs.m() =~~= m_open(s0, kind));
        lemma_wf_open(s0, kind);
    }
}

/// Closes a function or action block.
fn do_close_method<B: Backend>(backend: &B, cs: &mut CompileState, class: MethodClass) -> (r:
    Result<(), CompileError>)
    requires
        wf(old(cs).m()),
        old(cs).m().defnstack.len() > 0,
        class == MethodClass::Function ==> old(cs).m().defnstack.last()
            == DefinitionTypes::Function,
        class == MethodClass::Action ==> old(cs).m().defnstack.last() == DefinitionTypes::Action,
    ensures
        match r {
            Ok(()) => {
                &&& final(cs).m() == m_close_method(*backend, old(cs).m(), class)
                &&& m_close_method(*backend, old(cs).m(), class).error is None
                &&& wf(final(cs).m())
                &&& final(cs).linenumber == old(cs).linenumber
                &&& final(cs).tokenumber == old(cs).tokenumber
                &&& final(cs).token_line == old(cs).token_line
            },
            Err(e) => m_close_method(*backend, old(cs).m(), class).error == Some(e.m()),
        },
{
    let ghost s0 = cs.m();
    proof {
        lemma_counts_nonneg(s0.defnstack.drop_last());
        lemma_contains_drop(s0.defnstack, DefinitionTypes::Negative);
    }
    let ml = cs.metastack.len();
    let name: String = {
        let inner = &cs.metastack[ml - 1];
        if inner.len() == 0 {
            return Err(cs.throw_error(ErrorKind::NoName));
        }
        inner[0].clone()
    };
    proof {
        assert(s0.metastack.last().first() == name@);
    }
    if class == MethodClass::Function && str_eq(name.as_str(), "main") {
        return Err(cs.throw_error(ErrorKind::MainAsFunction));
    }
    match find_method(&cs.methods, name.as_str()) {
        Some(_) => {
            return Err(cs.throw_error(ErrorKind::DuplicateSymbol(name)));
        },
        None => {},
    }
    let _ = cs.metastack.pop();
    let body = cs.bodystack.pop().unwrap();
    let _ = cs.defnstack.pop();
    let _ = cs.varscopes.pop();
    let etypes = cs.typestack.pop().unwrap();
    let itypes = cs.voidstack.pop().unwrap();
    let code = body.clone();
    cs.methods.push(
        Method { name: name.clone(), code: code, class: class, itypes: itypes, etypes: etypes },
    );
    let frag = backend.create_function(name.as_str(), body);
    cs.add2body(frag.as_str());
    proof {
        assert(cs.m() =~~= m_close_method(*backend, s0, class));
        assert(wf(cs.m()));
    }
    Ok(())
}

/// Closes a guarded `then` block.
fn do_close_then<B: Backend>(backend: &B, cs: &mut CompileState)
    requires
        wf(old(cs).m()),
        old(cs).m().defnstack.len() > 0,
        old(cs).m().defnstack.last() == DefinitionTypes::Then,
    ensures
        final(cs).m() == m_close_then(*backend, old(cs).m()),
        wf(final(cs).m()),
        final(cs).linenumber == old(cs).linenumber,
        final(cs).tokenumber == old(cs).tokenumber,
        final(cs).token_line == old(cs).token_line,
{
    let ghost s0 = cs.m();
    proof {
        lemma_counts_nonneg(s0.defnstack.drop_last());
        lemma_contains_drop(s0.defnstack, DefinitionTypes::Negative);
    }
    let body = cs.bodystack.pop().unwrap();
    let _ = cs.metastack.pop();
    let _ = cs.defnstack.pop();
    let _ = cs.varscopes.pop();
    let n = cs.defnstack.len();
    let under_elect = n > 0 && cs.defnstack[n - 1] == DefinitionTypes::Elect;
    if under_elect {
        let ml = cs.metastack.len();
        let first = cs.metastack[ml - 1].len() == 0;
        let mut em = cs.metastack.pop().unwrap();
        em.push(String::new());
        cs.metastack.push(em);
        if first {
            let frag = backend.create_then_condition(body);
            cs.add2body(frag.as_str());
        } else {
            let inner = backend.create_then_condition(body);
            let frag = backend.create_else_condition(inner);
            cs.add2body(frag.as_str());
        }
    } else {
        let frag = backend.create_then_condition(body);
        cs.add2body(frag.as_str());
    }
    proof {
        assert(cs.m() =~~= m_close_then(*backend, s0));
        assert(wf(cs.m()));
    }
}

/// Closes an `elect` wrapper block.
fn do_close_elect<B: Backend>(backend: &B, cs: &mut CompileState)
    requires
        wf(old(cs).m()),
        old(cs).m().defnstack.len() > 0,
        old(cs).m().defnstack.last() == DefinitionTypes::Elect,
    ensures
        final(cs).m() == m_close_elect(*backend, old(cs).m()),
        wf(final(cs).m()),
        final(cs).linenumber == old(cs).linenumber,
        final(cs).tokenumber == old(cs).tokenumber,
        final(cs).token_line == old(cs).token_line,
{
    let ghost s0 = cs.m();
    proof {
        lemma_counts_nonneg(s0.defnstack.drop_last());
        lemma_contains_drop(s0.defnstack, DefinitionTypes::Negative);
    }
    let body = cs.bodystack.pop().unwrap();
    let _ = cs.metastack.pop();
    let _ = cs.defnstack.pop();
    let frag = backend.create_elect_block(body);
    cs.add2body(frag.as_str());
    proof {
        assert(cs.m() =~~= m_close_elect(*backend, s0));
        assert(wf(cs.m()));
    }
}

/// Closes a loop block.
fn do_close_loop<B: Backend>(backend: &B, cs: &mut CompileState)
    requires
        wf(old(cs).m()),
        old(cs).m().defnstack.len() > 0,
        old(cs).m().defnstack.last() == DefinitionTypes::Loop,
    ensures
        final(cs).m() == m_close_loop(*backend, old(cs).m()),
        wf(final(cs).m()),
        final(cs).linenumber == old(cs).linenumber,
        final(cs).tokenumber == old(cs).tokenumber,
        final(cs).token_line == old(cs).token_line,
{
    let ghost s0 = cs.m();
    proof {
        lemma_counts_nonneg(s0.defnstack.drop_last());
        lemma_contains_drop(s0.defnstack, DefinitionTypes::Negative);
    }
    let body = cs.bodystack.pop().unwrap();
    let _ = cs.metastack.pop();
    let _ = cs.defnstack.pop();
    let frag = backend.create_loop_block(body);
    cs.add2body(frag.as_str());
    proof {
        assert(cs.m() =~~= m_close_loop(*backend, s0));
        assert(wf(cs.m()));
    }
}

/// Closes a module block, discarding its body.
fn do_close_module(cs: &mut CompileState)
    requires
        wf(old(cs).m()),
        old(cs).m().defnstack.len() > 0,
        old(cs).m().defnstack.last() == DefinitionTypes::Module,
    ensures
        final(cs).m() == crate::model::m_close_module(old(cs).m()),
        wf(final(cs).m()),
        final(cs).linenumber == old(cs).linenumber,
        final(cs).tokenumber == old(cs).tokenumber,
        final(cs).token_line == old(cs).token_line,
{
    let ghost s0 = cs.m();
    proof {
        lemma_counts_nonneg(s0.defnstack.drop_last());
        lemma_contains_drop(s0.defnstack, DefinitionTypes::Negative);
    }
    let _ = cs.bodystack.pop();
    let _ = cs.metastack.pop();
    let _ = cs.defnstack.pop();
    proof {
        assert(cs.m() =~~= crate::model::m_close_module(s0));
        assert(wf(cs.m()));
    }
}

/// A closer token of a stated kind.
fn do_closer<B: Backend>(backend: &B, cs: &mut CompileState, kind: DefinitionTypes) -> (r: Result<
    (),
    CompileError,
>)
    requires
        wf(old(cs).m()),
        crate::model::has_body(kind),
    ensures
        match r {
            Ok(()) => {
                &&& final(cs).m() == m_closer(*backend, old(cs).m(), kind)
                &&& m_closer(*backend, old(cs).m(), kind).error is None
                &&& wf(final(cs).m())
                &&& final(cs).linenumber == old(cs).linenumber
                &&& final(cs).tokenumber == old(cs).tokenumber
                &&& final(cs).token_line == old(cs).token_line
            },
            Err(e) => m_closer(*backend, old(cs).m(), kind).error == Some(e.m()),
        },
{
    if cs.defnstack.is_empty() {
        return Err(cs.throw_error(ErrorKind::NoBlockToEnd));
    }
    let k = cs.defnstack[cs.defnstack.len() - 1];
    if k != kind {
        return Err(cs.throw_error(ErrorKind::MisplacedEnding(kind)));
    }
    match kind {
        DefinitionTypes::Function => do_close_method(backend, cs, MethodClass::Function),
        DefinitionTypes::Action => do_close_method(backend, cs, MethodClass::Action),
        DefinitionTypes::Then => {
            do_close_then(backend, cs);
            Ok(())
        },
        DefinitionTypes::Elect => {
            do_close_elect(backend, cs);
            Ok(())
        },
        DefinitionTypes::Loop => {
            do_close_loop(backend, cs);
            Ok(())
        },
        DefinitionTypes::Module => {
            do_close_module(cs);
            Ok(())
        },
        _ => {
            proof {
                assert(false);
            }
            Err(cs.throw_error(ErrorKind::MisplacedSemicolon))
        },
    }
}

/// A token reaching an open `linkin` declaration.
fn arm_linkin<B: Backend>(backend: &B, cs: &mut CompileState, w: &str) -> (r: Result<
    (),
    CompileError,
>)
    requires
        wf(old(cs).m()),
        old(cs).m().defnstack.len() > 0,
        old(cs).m().defnstack.last() == DefinitionTypes::Linkin,
        old(cs).m().metastack.last().len() < 2,
    ensures
        match r {
            Ok(()) => {
                &&& final(cs).m() == m_linkin_arg(*backend, old(cs).m(), w@)
                &&& m_linkin_arg(*backend, old(cs).m(), w@).error is None
                &&& wf(final(cs).m())
                &&& final(cs).linenumber == old(cs).linenumber
                &&& final(cs).tokenumber == old(cs).tokenumber
                &&& final(cs).token_line == old(cs).token_line
            },
            Err(e) => m_linkin_arg(*backend, old(cs).m(), w@).error == Some(e.m()),
        },
{
    let ghost s0 = cs.m();
    let ml = cs.metastack.len();
    if cs.metastack[ml - 1].len() == 0 {
        let mut meta = cs.metastack.pop().unwrap();
        meta.push(w.to_owned());
        cs.metastack.push(meta);
        proof {
            assert(cs.m() =~~= m_linkin_arg(*backend, s0, w@));
            assert(wf(cs.m()));
        }
        Ok(())
    } else {
        let is_fun = {
            let inner = &cs.metastack[ml - 1];
            str_eq(inner[0].as_str(), "fun")
        };
        let is_act = {
            let inner = &cs.metastack[ml - 1];
            str_eq(inner[0].as_str(), "act")
        };
        if !is_fun && !is_act {
            let class = {
                let inner = &cs.metastack[ml - 1];
                inner[0].clone()
            };
            return Err(cs.throw_error(ErrorKind::InvalidLinkinClass(class)));
        }
        match find_method(&cs.methods, w) {
            Some(_) => {
                return Err(cs.throw_error(ErrorKind::DuplicateSymbol(w.to_owned())));
            },
            None => {},
        }
        match cs.variable_in_scope(w) {
            Some(_) => {
                return Err(cs.throw_error(ErrorKind::DuplicateSymbol(w.to_owned())));
            },
            None => {},
        }
        let _ = cs.defnstack.pop();
        let _ = cs.metastack.pop();
        proof {
            lemma_counts_nonneg(s0.defnstack.drop_last());
            lemma_contains_drop(s0.defnstack, DefinitionTypes::Negative);
        }
        cs.methods.push(
            Method {
                name: w.to_owned(),
                code: "LINKED IN".to_owned(),
                class: if is_fun {
                    MethodClass::Function
                } else {
                    MethodClass::Action
                },
                itypes: Vec::new(),
                etypes: Vec::new(),
            },
        );
        let frag = backend.linkin_function(w);
        cs.add2body(frag.as_str());
        proof {
            assert(cs.m() =~~= m_linkin_arg(*backend, s0, w@));
            assert(wf(cs.m()));
        }
        Ok(())
    }
}

/// A token reaching an open `var` declaration: the variable's name.
fn arm_declare_variable<B: Backend>(backend: &B, cs: &mut CompileState, w: &str) -> (r: Result<
    (),
    CompileError,
>)
    requires
        wf(old(cs).m()),
        old(cs).m().defnstack.len() > 0,
        old(cs).m().defnstack.last() == DefinitionTypes::Variable,
    ensures
        match r {
            Ok(()) => {
                &&& final(cs).m() == m_declare_variable(*backend, old(cs).m(), w@)
                &&& m_declare_variable(*backend, old(cs).m(), w@).error is None
                &&& wf(final(cs).m())
                &&& final(cs).linenumber == old(cs).linenumber
                &&& final(cs).tokenumber == old(cs).tokenumber
                &&& final(cs).token_line == old(cs).token_line
            },
            Err(e) => m_declare_variable(*backend, old(cs).m(), w@).error == Some(e.m()),
        },
{
    let ghost s0 = cs.m();
    match find_method(&cs.methods, w) {
        Some(_) => {
            return Err(cs.throw_error(ErrorKind::DuplicateSymbol(w.to_owned())));
        },
        None => {},
    }
    match cs.variable_in_scope(w) {
        Some(_) => {
            return Err(cs.throw_error(ErrorKind::DuplicateSymbol(w.to_owned())));
        },
        None => {},
    }
    if cs.typestack.is_empty() {
        return Err(cs.throw_error(ErrorKind::StackUnderflow));
    }
    let tl = cs.typestack.len();
    if cs.typestack[tl - 1].len() == 0 {
        return Err(cs.throw_error(ErrorKind::StackUnderflow));
    }
    let t = cs.pop_type();
    let mut sc = cs.varscopes.pop().unwrap();
    sc.push((w.to_owned(), t));
    cs.varscopes.push(sc);
    let _ = cs.defnstack.pop();
    let _ = cs.metastack.pop();
    proof {
        lemma_counts_nonneg(s0.defnstack.drop_last());
        lemma_contains_drop(s0.defnstack, DefinitionTypes::Negative);
    }
    let frag = backend.create_variable(w);
    cs.add2body(frag.as_str());
    proof {
        assert(cs.m() =~~= m_declare_variable(*backend, s0, w@));
        assert(wf(cs.m()));
    }
    Ok(())
}

/// The first token after `fun`/`act`: the name being declared.
fn arm_capture_name(cs: &mut CompileState, w: &str) -> (r: Result<(), CompileError>)
    requires
        wf(old(cs).m()),
        old(cs).m().defnstack.len() > 0,
        old(cs).m().defnstack.last() == DefinitionTypes::Function || old(
            cs,
        ).m().defnstack.last() == DefinitionTypes::Action,
    ensures
        match r {
            Ok(()) => {
                &&& final(cs).m() == m_capture_name(old(cs).m(), w@)
                &&& m_capture_name(old(cs).m(), w@).error is None
                &&& wf(final(cs).m())
                &&& final(cs).linenumber == old(cs).linenumber
                &&& final(cs).tokenumber == old(cs).tokenumber
                &&& final(cs).token_line == old(cs).token_line
            },
            Err(e) => m_capture_name(old(cs).m(), w@).error == Some(e.m()),
        },
{
    let ghost s0 = cs.m();
    match find_method(&cs.methods, w) {
        Some(_) => {
            return Err(cs.throw_error(ErrorKind::DuplicateSymbol(w.to_owned())));
        },
        None => {},
    }
    match cs.variable_in_scope(w) {
        Some(_) => {
            return Err(cs.throw_error(ErrorKind::DuplicateSymbol(w.to_owned())));
        },
        None => {},
    }
    let mut meta = cs.metastack.pop().unwrap();
    meta.push(w.to_owned());
    cs.metastack.push(meta);
    proof {
        assert(cs.m() =~~= m_capture_name(s0, w@));
        assert(wf(cs.m()));
    }
    Ok(())
}

/// A reference to a registered method: applies its stack effect and emits
/// the call.
fn arm_call_method<B: Backend>(backend: &B, cs: &mut CompileState, w: &str) -> (r: Result<
    (),
    CompileError,
>)
    requires
        wf(old(cs).m()),
        lookup_method(old(cs).m().methods, w@) is Some,
    ensures
        match r {
            Ok(()) => {
                &&& final(cs).m() == m_call_method(*backend, old(cs).m(), w@)
                &&& m_call_method(*backend, old(cs).m(), w@).error is None
                &&& wf(final(cs).m())
                &&& final(cs).linenumber == old(cs).linenumber
                &&& final(cs).tokenumber == old(cs).tokenumber
                &&& final(cs).token_line == old(cs).token_line
            },
            Err(e) => m_call_method(*backend, old(cs).m(), w@).error == Some(e.m()),
        },
{
    let ghost s0 = cs.m();
    let idx = match find_method(&cs.methods, w) {
        Some(i) => i,
        None => {
            proof {
                assert(false);
            }
            return Err(cs.throw_error(ErrorKind::StackUnderflow));
        },
    };
    let ghost mm = lookup_method(s0.methods, w@).unwrap();
    let is_action = cs.methods[idx].class == MethodClass::Action;
    if is_action {
        if !cs.before_action() {
            return Err(cs.throw_error(ErrorKind::ActionInFunction));
        }
    }
    let itypes = clone_types(&cs.methods[idx].itypes);
    let etypes = clone_types(&cs.methods[idx].etypes);
    proof {
        assert(itypes@ == mm.itypes);
        assert(etypes@ == mm.etypes);
    }
    let ghost s_exp = m_expect_types(s0, mm.itypes);
    match cs.expect_types(itypes.as_slice()) {
        Err(e) => {
            proof {
                assert(m_push_types(s_exp, mm.etypes) == s_exp);
            }
            return Err(e);
        },
        Ok(()) => {},
    }
    proof {
        lemma_expect_shape(s0, mm.itypes);
    }
    if etypes.len() > 0 {
        if cs.typestack.is_empty() {
            let e = cs.throw_error(ErrorKind::StackUnderflow);
            proof {
                assert(m_push_type(s_exp, mm.etypes.first()) == set_error(
                    s_exp,
                    crate::errors::ErrorKindModel::StackUnderflow,
                ));
                assert(m_push_types(s_exp, mm.etypes) == m_push_types(
                    m_push_type(s_exp, mm.etypes.first()),
                    mm.etypes.drop_first(),
                ));
            }
            return Err(e);
        }
        cs.push_types(etypes.as_slice());
    }
    proof {
        lemma_push_types_shape(s_exp, mm.etypes);
    }
    let frag = backend.user_function(w);
    cs.add2body(frag.as_str());
    proof {
        assert(cs.m() =~~= m_call_method(*backend, s0, w@));
        assert(wf(cs.m()));
    }
    Ok(())
}

/// A `$name` token: reads a variable in scope.
fn arm_read_variable<B: Backend>(backend: &B, cs: &mut CompileState, name: &str) -> (r: Result<
    (),
    CompileError,
>)
    requires
        wf(old(cs).m()),
    ensures
        match r {
            Ok(()) => {
                &&& final(cs).m() == m_read_variable(*backend, old(cs).m(), name@)
                &&& m_read_variable(*backend, old(cs).m(), name@).error is None
                &&& wf(final(cs).m())
                &&& final(cs).linenumber == old(cs).linenumber
                &&& final(cs).tokenumber == old(cs).tokenumber
                &&& final(cs).token_line == old(cs).token_line
            },
            Err(e) => m_read_variable(*backend, old(cs).m(), name@).error == Some(e.m()),
        },
{
    let ghost s0 = cs.m();
    match cs.variable_in_scope(name) {
        None => Err(cs.throw_error(ErrorKind::UndefinedVariable(name.to_owned()))),
        Some(t) => {
            if cs.typestack.is_empty() {
                return Err(cs.throw_error(ErrorKind::StackUnderflow));
            }
            cs.push_type(t);
            let frag = backend.read_variable(name);
            cs.add2body(frag.as_str());
            proof {
                assert(cs.m() =~~= m_read_variable(*backend, s0, name@));
                assert(wf(cs.m()));
            }
            Ok(())
        },
    }
}

/// A `name!` token: writes a variable in scope.
fn arm_write_variable<B: Backend>(backend: &B, cs: &mut CompileState, name: &str) -> (r: Result<
    (),
    CompileError,
>)
    requires
        wf(old(cs).m()),
    ensures
        match r {
            Ok(()) => {
                &&& final(cs).m() == m_write_variable(*backend, old(cs).m(), name@)
                &&& m_write_variable(*backend, old(cs).m(), name@).error is None
                &&& wf(final(cs).m())
                &&& final(cs).linenumber == old(cs).linenumber
                &&& final(cs).tokenumber == old(cs).tokenumber
                &&& final(cs).token_line == old(cs).token_line
            },
            Err(e) => m_write_variable(*backend, old(cs).m(), name@).error == Some(e.m()),
        },
{
    let ghost s0 = cs.m();
    match cs.variable_in_scope(name) {
        None => Err(cs.throw_error(ErrorKind::UndefinedVariable(name.to_owned()))),
        Some(t) => {
            let mut one: Vec<ValueTypes> = Vec::new();
            one.push(t);
            proof {
                assert(one@ =~= seq![t]);
            }
            match cs.expect_types(one.as_slice()) {
                Err(e) => Err(e),
                Ok(()) => {
                    proof {
                        lemma_expect_shape(s0, seq![t]);
                    }
                    let frag = backend.write_variable(name);
                    cs.add2body(frag.as_str());
                    proof {
                        assert(cs.m() =~~= m_write_variable(*backend, s0, name@));
                        assert(wf(cs.m()));
                    }
                    Ok(())
                },
            }
        },
    }
}

/// A literal push: an integer token, or `true`/`false` lowered to an integer
/// push of the given text.
fn arm_push_literal<B: Backend>(
    backend: &B,
    cs: &mut CompileState,
    text: &str,
    t: ValueTypes,
) -> (r: Result<(), CompileError>)
    requires
        wf(old(cs).m()),
    ensures
        match r {
            Ok(()) => {
                &&& final(cs).m() == ({
                    let s1 = m_push_type(old(cs).m(), t);
                    emit(s1, backend.s_push_integer(text@))
                })
                &&& m_push_type(old(cs).m(), t).error is None
                &&& wf(final(cs).m())
                &&& final(cs).linenumber == old(cs).linenumber
                &&& final(cs).tokenumber == old(cs).tokenumber
                &&& final(cs).token_line == old(cs).token_line
            },
            Err(e) => m_push_type(old(cs).m(), t).error == Some(e.m()),
        },
{
    let ghost s0 = cs.m();
    if cs.typestack.is_empty() {
        return Err(cs.throw_error(ErrorKind::StackUnderflow));
    }
    cs.push_type(t);
    let frag = backend.push_integer(text);
    cs.add2body(frag.as_str());
    proof {
        assert(cs.m() =~~= emit(m_push_type(s0, t), backend.s_push_integer(text@)));
        assert(wf(cs.m()));
    }
    Ok(())
}

/// A builtin with a fixed consume/produce effect and a fixed fragment.
fn do_builtin(
    cs: &mut CompileState,
    consumes: &Vec<ValueTypes>,
    produces: &Vec<ValueTypes>,
    frag: &str,
) -> (r: Result<(), CompileError>)
    requires
        wf(old(cs).m()),
        consumes@.len() > 0,
        produces@.len() > 0,
    ensures
        match r {
            Ok(()) => {
                &&& final(cs).m() == m_builtin(old(cs).m(), consumes@, produces@, frag@)
                &&& m_builtin(old(cs).m(), consumes@, produces@, frag@).error is None
                &&& wf(final(cs).m())
                &&& final(cs).linenumber == old(cs).linenumber
                &&& final(cs).tokenumber == old(cs).tokenumber
                &&& final(cs).token_line == old(cs).token_line
            },
            Err(e) => m_builtin(old(cs).m(), consumes@, produces@, frag@).error == Some(e.m()),
        },
{
    let ghost s0 = cs.m();
    let ghost s_exp = m_expect_types(s0, consumes@);
    match cs.expect_types(consumes.as_slice()) {
        Err(e) => {
            proof {
                assert(m_push_types(s_exp, produces@) == s_exp);
            }
            return Err(e);
        },
        Ok(()) => {},
    }
    proof {
        lemma_expect_shape(s0, consumes@);
        assert(s0.typestack.len() > 0);
    }
    cs.push_types(produces.as_slice());
    proof {
        lemma_push_types_shape(s_exp, produces@);
    }
    cs.add2body(frag);
    proof {
        assert(cs.m() =~~= m_builtin(s0, consumes@, produces@, frag@));
        assert(wf(cs.m()));
    }
    Ok(())
}

/// `copy`: duplicates the top operand whatever its type.
fn do_copy<B: Backend>(backend: &B, cs: &mut CompileState) -> (r: Result<(), CompileError>)
    requires
        wf(old(cs).m()),
    ensures
        match r {
            Ok(()) => {
                &&& final(cs).m() == m_builtin_copy(*backend, old(cs).m())
                &&& m_builtin_copy(*backend, old(cs).m()).error is None
                &&& wf(final(cs).m())
                &&& final(cs).linenumber == old(cs).linenumber
                &&& final(cs).tokenumber == old(cs).tokenumber
                &&& final(cs).token_line == old(cs).token_line
            },
            Err(e) => m_builtin_copy(*backend, old(cs).m()).error == Some(e.m()),
        },
{
    let ghost s0 = cs.m();
    if cs.typestack.is_empty() {
        return Err(cs.throw_error(ErrorKind::StackUnderflow));
    }
    let tl = cs.typestack.len();
    if cs.typestack[tl - 1].len() == 0 {
        return Err(cs.throw_error(ErrorKind::StackUnderflow));
    }
    let t = cs.pop_type();
    cs.push_type(t);
    cs.push_type(t);
    let frag = backend.fun_copy();
    cs.add2body(frag);
    proof {
        let (s1, tt) = m_pop_type(s0);
        assert(seq![tt, tt].first() == tt);
        assert(seq![tt, tt].drop_first() =~= seq![tt]);
        assert(seq![tt].first() == tt);
        assert(seq![tt].drop_first() =~= Seq::<ValueTypes>::empty());
        assert(m_push_types(s1, seq![tt, tt]) == m_push_types(m_push_type(s1, tt), seq![tt]));
        assert(m_push_types(m_push_type(s1, tt), seq![tt]) == m_push_types(
            m_push_type(m_push_type(s1, tt), tt),
            Seq::<ValueTypes>::empty(),
        ));
        assert(m_push_types(
            m_push_type(m_push_type(s1, tt), tt),
            Seq::<ValueTypes>::empty(),
        ) == m_push_type(m_push_type(s1, tt), tt));
        assert(cs.m() =~~= m_builtin_copy(*backend, s0));
        assert(wf(cs.m()));
    }
    Ok(())
}

/// `drop`: discards the top operand whatever its type.
fn do_drop<B: Backend>(backend: &B, cs: &mut CompileState) -> (r: Result<(), CompileError>)
    requires
        wf(old(cs).m()),
    ensures
        match r {
            Ok(()) => {
                &&& final(cs).m() == m_builtin_drop(*backend, old(cs).m())
                &&& m_builtin_drop(*backend, old(cs).m()).error is None
                &&& wf(final(cs).m())
                &&& final(cs).linenumber == old(cs).linenumber
                &&& final(cs).tokenumber == old(cs).tokenumber
                &&& final(cs).token_line == old(cs).token_line
            },
            Err(e) => m_builtin_drop(*backend, old(cs).m()).error == Some(e.m()),
        },
{
    let ghost s0 = cs.m();
    if cs.typestack.is_empty() {
        return Err(cs.throw_error(ErrorKind::StackUnderflow));
    }
    let tl = cs.typestack.len();
    if cs.typestack[tl - 1].len() == 0 {
        return Err(cs.throw_error(ErrorKind::StackUnderflow));
    }
    let _ = cs.pop_type();
    let frag = backend.fun_drop();
    cs.add2body(frag);
    proof {
        assert(cs.m() =~~= m_builtin_drop(*backend, s0));
        assert(wf(cs.m()));
    }
    Ok(())
}

/// `swap`: exchanges the two top operands whatever their types.
fn do_swap<B: Backend>(backend: &B, cs: &mut CompileState) -> (r: Result<(), CompileError>)
    requires
        wf(old(cs).m()),
    ensures
        match r {
            Ok(()) => {
                &&& final(cs).m() == m_builtin_swap(*backend, old(cs).m())
                &&& m_builtin_swap(*backend, old(cs).m()).error is None
                &&& wf(final(cs).m())
                &&& final(cs).linenumber == old(cs).linenumber
                &&& final(cs).tokenumber == old(cs).tokenumber
                &&& final(cs).token_line == old(cs).token_line
            },
            Err(e) => m_builtin_swap(*backend, old(cs).m()).error == Some(e.m()),
        },
{
    let ghost s0 = cs.m();
    if cs.typestack.is_empty() {
        return Err(cs.throw_error(ErrorKind::StackUnderflow));
    }
    let tl = cs.typestack.len();
    if cs.typestack[tl - 1].len() == 0 {
        return Err(cs.throw_error(ErrorKind::StackUnderflow));
    }
    let t1 = cs.pop_type();
    let tl2 = cs.typestack.len();
    if cs.typestack[tl2 - 1].len() == 0 {
        let e = cs.throw_error(ErrorKind::StackUnderflow);
        return Err(e);
    }
    let t2 = cs.pop_type();
    cs.push_type(t1);
    cs.push_type(t2);
    let frag = backend.fun_swap();
    cs.add2body(frag);
    proof {
        let (s1, u1) = m_pop_type(s0);
        let (s2, u2) = m_pop_type(s1);
        assert(seq![u1, u2].first() == u1);
        assert(seq![u1, u2].drop_first() =~= seq![u2]);
        assert(seq![u2].first() == u2);
        assert(seq![u2].drop_first() =~= Seq::<ValueTypes>::empty());
        assert(m_push_types(s2, seq![u1, u2]) == m_push_types(m_push_type(s2, u1), seq![u2]));
        assert(m_push_types(m_push_type(s2, u1), seq![u2]) == m_push_types(
            m_push_type(m_push_type(s2, u1), u2),
            Seq::<ValueTypes>::empty(),
        ));
        assert(m_push_types(
            m_push_type(m_push_type(s2, u1), u2),
            Seq::<ValueTypes>::empty(),
        ) == m_push_type(m_push_type(s2, u1), u2));
        assert(cs.m() =~~= m_builtin_swap(*backend, s0));
        assert(wf(cs.m()));
    }
    Ok(())
}

/// Equality tests accept operands of any types and produce a boolean.
fn do_equality<B: Backend>(backend: &B, cs: &mut CompileState, frag: &str) -> (r: Result<
    (),
    CompileError,
>)
    requires
        wf(old(cs).m()),
    ensures
        match r {
            Ok(()) => {
                &&& final(cs).m() == m_builtin_equality(*backend, old(cs).m(), frag@)
                &&& m_builtin_equality(*backend, old(cs).m(), frag@).error is None
                &&& wf(final(cs).m())
                &&& final(cs).linenumber == old(cs).linenumber
                &&& final(cs).tokenumber == old(cs).tokenumber
                &&& final(cs).token_line == old(cs).token_line
            },
            Err(e) => m_builtin_equality(*backend, old(cs).m(), frag@).error == Some(e.m()),
        },
{
    let ghost s0 = cs.m();
    if cs.typestack.is_empty() {
        return Err(cs.throw_error(ErrorKind::StackUnderflow));
    }
    let tl = cs.typestack.len();
    if cs.typestack[tl - 1].len() == 0 {
        return Err(cs.throw_error(ErrorKind::StackUnderflow));
    }
    let _ = cs.pop_type();
    let tl2 = cs.typestack.len();
    if cs.typestack[tl2 - 1].len() == 0 {
        let e = cs.throw_error(ErrorKind::StackUnderflow);
        return Err(e);
    }
    let _ = cs.pop_type();
    cs.push_type(ValueTypes::Binary);
    cs.add2body(frag);
    proof {
        let (s1, u1) = m_pop_type(s0);
        let (s2, u2) = m_pop_type(s1);
        assert(seq![ValueTypes::Binary].first() == ValueTypes::Binary);
        assert(seq![ValueTypes::Binary].drop_first() =~= Seq::<ValueTypes>::empty());
        assert(m_push_types(s2, seq![ValueTypes::Binary]) == m_push_types(
            m_push_type(s2, ValueTypes::Binary),
            Seq::<ValueTypes>::empty(),
        ));
        assert(cs.m() =~~= m_builtin_equality(*backend, s0, frag@));
        assert(wf(cs.m()));
    }
    Ok(())
}

/// A pair of expected operand types.
fn vt2(a: ValueTypes, b: ValueTypes) -> (r: Vec<ValueTypes>)
    ensures
        r@ == seq![a, b],
{
    let mut v: Vec<ValueTypes> = Vec::new();
    v.push(a);
    v.push(b);
    proof {
        assert(v@ =~= seq![a, b]);
    }
    v
}

/// A single expected operand type.
fn vt1(a: ValueTypes) -> (r: Vec<ValueTypes>)
    ensures
        r@ == seq![a],
{
    let mut v: Vec<ValueTypes> = Vec::new();
    v.push(a);
    proof {
        assert(v@ =~= seq![a]);
    }
    v
}

/// Emits a fragment with no stack effect.
fn do_plain_emit(cs: &mut CompileState, frag: &str)
    requires
        wf(old(cs).m()),
    ensures
        final(cs).m() == emit(old(cs).m(), frag@),
        wf(final(cs).m()),
        final(cs).linenumber == old(cs).linenumber,
        final(cs).tokenumber == old(cs).tokenumber,
        final(cs).token_line == old(cs).token_line,
{
    cs.add2body(frag);
    proof {
        assert(wf(cs.m()));
    }
}

/// What one completed token does to the state: the arms are tried in
/// priority order, and the first that fires settles the token's meaning.
#[verifier::rlimit(100)]
fn handle_token<B: Backend>(backend: &B, cs: &mut CompileState, w: &str) -> (r: Result<
    (),
    CompileError,
>)
    requires
        wf(old(cs).m()),
    ensures
        match r {
            Ok(()) => {
                &&& final(cs).m() == m_dispatch(*backend, old(cs).m(), w@)
                &&& m_dispatch(*backend, old(cs).m(), w@).error is None
                &&& wf(final(cs).m())
                &&& final(cs).linenumber == old(cs).linenumber
                &&& final(cs).tokenumber == old(cs).tokenumber
                &&& final(cs).token_line == old(cs).token_line
            },
            Err(e) => m_dispatch(*backend, old(cs).m(), w@).error == Some(e.m()),
        },
{
    let ghost s0 = cs.m();
    let n = cs.defnstack.len();
    let linkin_guard = n > 0 && cs.defnstack[n - 1] == DefinitionTypes::Linkin && cs.metastack[n
        - 1].len() < 2;
    if linkin_guard {
        let r = arm_linkin(backend, cs, w);
        proof {
            assert(m_dispatch(*backend, s0, w@) == m_linkin_arg(*backend, s0, w@));
        }
        return r;
    }
    let variable_guard = n > 0 && cs.defnstack[n - 1] == DefinitionTypes::Variable;
    if variable_guard {
        let r = arm_declare_variable(backend, cs, w);
        proof {
            assert(m_dispatch(*backend, s0, w@) == m_declare_variable(*backend, s0, w@));
        }
        return r;
    }
    if str_eq(w, "fun:") || str_eq(w, "fun") {
        do_open(cs, DefinitionTypes::Function);
        proof {
            assert(m_dispatch(*backend, s0, w@) == m_open(s0, DefinitionTypes::Function));
        }
        return Ok(());
    }
    if str_eq(w, "act:") || str_eq(w, "act") {
        do_open(cs, DefinitionTypes::Action);
        proof {
            assert(m_dispatch(*backend, s0, w@) == m_open(s0, DefinitionTypes::Action));
        }
        return Ok(());
    }
    if str_eq(w, "then:") || str_eq(w, "then") {
        let bin = vt1(ValueTypes::Binary);
        match cs.expect_types(bin.as_slice()) {
            Err(e) => {
                proof {
                    assert(m_dispatch(*backend, s0, w@).error == Some(e.m()));
                }
                return Err(e);
            },
            Ok(()) => {},
        }
        proof {
            lemma_expect_shape(s0, seq![ValueTypes::Binary]);
        }
        do_open(cs, DefinitionTypes::Then);
        proof {
            assert(m_dispatch(*backend, s0, w@) == m_open(
                m_expect_types(s0, seq![ValueTypes::Binary]),
                DefinitionTypes::Then,
            ));
        }
        return Ok(());
    }
    if str_eq(w, "elect:") || str_eq(w, "elect") || str_eq(w, "when:") || str_eq(w, "when") {
        do_open(cs, DefinitionTypes::Elect);
        proof {
            assert(m_dispatch(*backend, s0, w@) == m_open(s0, DefinitionTypes::Elect));
        }
        return Ok(());
    }
    if str_eq(w, "loop:") || str_eq(w, "loop") || str_eq(w, "cycle:") || str_eq(w, "cycle") {
        do_open(cs, DefinitionTypes::Loop);
        proof {
            assert(m_dispatch(*backend, s0, w@) == m_open(s0, DefinitionTypes::Loop));
        }
        return Ok(());
    }
    if str_eq(w, "module") {
        do_open(cs, DefinitionTypes::Module);
        proof {
            assert(m_dispatch(*backend, s0, w@) == m_open(s0, DefinitionTypes::Module));
        }
        return Ok(());
    }
    if str_eq(w, "var") {
        do_open(cs, DefinitionTypes::Variable);
        proof {
            assert(m_dispatch(*backend, s0, w@) == m_open(s0, DefinitionTypes::Variable));
        }
        return Ok(());
    }
    if str_eq(w, "linkin") {
        do_open(cs, DefinitionTypes::Linkin);
        proof {
            assert(m_dispatch(*backend, s0, w@) == m_open(s0, DefinitionTypes::Linkin));
        }
        return Ok(());
    }
    if str_eq(w, ":fun") || str_eq(w, ";fun") || str_eq(w, "endfun") {
        let r = do_closer(backend, cs, DefinitionTypes::Function);
        proof {
            assert(m_dispatch(*backend, s0, w@) == m_closer(
                *backend,
                s0,
                DefinitionTypes::Function,
            ));
        }
        return r;
    }
    if str_eq(w, ":act") {
        let r = do_closer(backend, cs, DefinitionTypes::Action);
        proof {
            assert(m_dispatch(*backend, s0, w@) == m_closer(
                *backend,
                s0,
                DefinitionTypes::Action,
            ));
        }
        return r;
    }
    if str_eq(w, ":then") {
        let r = do_closer(backend, cs, DefinitionTypes::Then);
        proof {
            assert(m_dispatch(*backend, s0, w@) == m_closer(*backend, s0, DefinitionTypes::Then));
        }
        return r;
    }
    if str_eq(w, ":elect") || str_eq(w, ":when") {
        let r = do_closer(backend, cs, DefinitionTypes::Elect);
        proof {
            assert(m_dispatch(*backend, s0, w@) == m_closer(
                *backend,
                s0,
                DefinitionTypes::Elect,
            ));
        }
        return r;
    }
    if str_eq(w, ":loop") || str_eq(w, ":cycle") {
        let r = do_closer(backend, cs, DefinitionTypes::Loop);
        proof {
            assert(m_dispatch(*backend, s0, w@) == m_closer(*backend, s0, DefinitionTypes::Loop));
        }
        return r;
    }
    if str_eq(w, ":module") {
        let r = do_closer(backend, cs, DefinitionTypes::Module);
        proof {
            assert(m_dispatch(*backend, s0, w@) == m_closer(
                *backend,
                s0,
                DefinitionTypes::Module,
            ));
        }
        return r;
    }
    if str_eq(w, ";") || str_eq(w, "end") {
        if cs.defnstack.is_empty() {
            let e = cs.throw_error(ErrorKind::MisplacedSemicolon);
            proof {
                assert(m_dispatch(*backend, s0, w@).error == Some(e.m()));
            }
            return Err(e);
        }
        let k = cs.defnstack[cs.defnstack.len() - 1];
        match k {
            DefinitionTypes::Function => {
                let r = do_close_method(backend, cs, MethodClass::Function);
                proof {
                    assert(m_dispatch(*backend, s0, w@) == m_close_method(
                        *backend,
                        s0,
                        MethodClass::Function,
                    ));
                }
                return r;
            },
            DefinitionTypes::Action => {
                let r = do_close_method(backend, cs, MethodClass::Action);
                proof {
                    assert(m_dispatch(*backend, s0, w@) == m_close_method(
                        *backend,
                        s0,
                        MethodClass::Action,
                    ));
                }
                return r;
            },
            DefinitionTypes::Then => {
                do_close_then(backend, cs);
                proof {
                    assert(m_dispatch(*backend, s0, w@) == m_close_then(*backend, s0));
                }
                return Ok(());
            },
            DefinitionTypes::Elect => {
                do_close_elect(backend, cs);
                proof {
                    assert(m_dispatch(*backend, s0, w@) == m_close_elect(*backend, s0));
                }
                return Ok(());
            },
            DefinitionTypes::Loop => {
                do_close_loop(backend, cs);
                proof {
                    assert(m_dispatch(*backend, s0, w@) == m_close_loop(*backend, s0));
                }
                return Ok(());
            },
            DefinitionTypes::Module => {
                do_close_module(cs);
                proof {
                    assert(m_dispatch(*backend, s0, w@) == crate::model::m_close_module(s0));
                }
                return Ok(());
            },
            _ => {
                let e = cs.throw_error(ErrorKind::MisplacedSemicolon);
                proof {
                    assert(m_dispatch(*backend, s0, w@).error == Some(e.m()));
                }
                return Err(e);
            },
        }
    }
    let capture_guard = n > 0 && (cs.defnstack[n - 1] == DefinitionTypes::Function
        || cs.defnstack[n - 1] == DefinitionTypes::Action) && cs.metastack[n - 1].len() == 0;
    if capture_guard {
        let r = arm_capture_name(cs, w);
        proof {
            assert(m_dispatch(*backend, s0, w@) == m_capture_name(s0, w@));
        }
        return r;
    }
    match find_method(&cs.methods, w) {
        Some(_) => {
            let r = arm_call_method(backend, cs, w);
            proof {
                assert(m_dispatch(*backend, s0, w@) == m_call_method(*backend, s0, w@));
            }
            return r;
        },
        None => {},
    }
    let wn = w.unicode_len();
    if wn > 0 && w.get_char(0) == '$' {
        let name = w.substring_char(1, wn);
        proof {
            assert(name@ =~= w@.drop_first());
        }
        let r = arm_read_variable(backend, cs, name);
        proof {
            assert(m_dispatch(*backend, s0, w@) == m_read_variable(*backend, s0, w@.drop_first()));
        }
        return r;
    }
    if wn > 0 && w.get_char(wn - 1) == '!' {
        let name = w.substring_char(0, wn - 1);
        proof {
            assert(name@ =~= w@.drop_last());
        }
        let r = arm_write_variable(backend, cs, name);
        proof {
            assert(m_dispatch(*backend, s0, w@) == m_write_variable(*backend, s0, w@.drop_last()));
        }
        return r;
    }
    if is_int_literal(w) {
        let r = arm_push_literal(backend, cs, w, ValueTypes::Number);
        proof {
            assert(m_dispatch(*backend, s0, w@) == ({
                let s1 = m_push_type(s0, ValueTypes::Number);
                if s1.error is Some {
                    s1
                } else {
                    emit(s1, backend.s_push_integer(w@))
                }
            }));
        }
        return r;
    }
    if str_eq(w, "true") {
        let r = arm_push_literal(backend, cs, "1", ValueTypes::Binary);
        proof {
            assert(m_dispatch(*backend, s0, w@) == ({
                let s1 = m_push_type(s0, ValueTypes::Binary);
                if s1.error is Some {
                    s1
                } else {
                    emit(s1, backend.s_push_integer("1"@))
                }
            }));
        }
        return r;
    }
    if str_eq(w, "false") {
        let r = arm_push_literal(backend, cs, "0", ValueTypes::Binary);
        proof {
            assert(m_dispatch(*backend, s0, w@) == ({
                let s1 = m_push_type(s0, ValueTypes::Binary);
                if s1.error is Some {
                    s1
                } else {
                    emit(s1, backend.s_push_integer("0"@))
                }
            }));
        }
        return r;
    }
    if str_eq(w, "+") {
        let c = vt2(ValueTypes::Number, ValueTypes::Number);
        let p = vt1(ValueTypes::Number);
        let r = do_builtin(cs, &c, &p, backend.fun_add());
        proof {
            assert(m_dispatch(*backend, s0, w@) == m_builtin(s0, c@, p@, backend.s_fun_add()));
        }
        return r;
    }
    if str_eq(w, "-") {
        let c = vt2(ValueTypes::Number, ValueTypes::Number);
        let p = vt1(ValueTypes::Number);
        let r = do_builtin(cs, &c, &p, backend.fun_sub());
        proof {
            assert(m_dispatch(*backend, s0, w@) == m_builtin(s0, c@, p@, backend.s_fun_sub()));
        }
        return r;
    }
    if str_eq(w, "*") {
        let c = vt2(ValueTypes::Number, ValueTypes::Number);
        let p = vt1(ValueTypes::Number);
        let r = do_builtin(cs, &c, &p, backend.fun_mul());
        proof {
            assert(m_dispatch(*backend, s0, w@) == m_builtin(s0, c@, p@, backend.s_fun_mul()));
        }
        return r;
    }
    if str_eq(w, "/") {
        let c = vt2(ValueTypes::Number, ValueTypes::Number);
        let p = vt1(ValueTypes::Number);
        let r = do_builtin(cs, &c, &p, backend.fun_div());
        proof {
            assert(m_dispatch(*backend, s0, w@) == m_builtin(s0, c@, p@, backend.s_fun_div()));
        }
        return r;
    }
    if str_eq(w, "mod") {
        let c = vt2(ValueTypes::Number, ValueTypes::Number);
        let p = vt1(ValueTypes::Number);
        let r = do_builtin(cs, &c, &p, backend.fun_mod());
        proof {
            assert(m_dispatch(*backend, s0, w@) == m_builtin(s0, c@, p@, backend.s_fun_mod()));
        }
        return r;
    }
    if str_eq(w, "^") || str_eq(w, "copy") {
        let r = do_copy(backend, cs);
        proof {
            assert(m_dispatch(*backend, s0, w@) == m_builtin_copy(*backend, s0));
        }
        return r;
    }
    if str_eq(w, "v") || str_eq(w, "drop") {
        let r = do_drop(backend, cs);
        proof {
            assert(m_dispatch(*backend, s0, w@) == m_builtin_drop(*backend, s0));
        }
        return r;
    }
    if str_eq(w, "swap") {
        let r = do_swap(backend, cs);
        proof {
            assert(m_dispatch(*backend, s0, w@) == m_builtin_swap(*backend, s0));
        }
        return r;
    }
    if str_eq(w, "=?") || str_eq(w, "equals?") {
        let r = do_equality(backend, cs, backend.fun_simple_equality());
        proof {
            assert(m_dispatch(*backend, s0, w@) == m_builtin_equality(
                *backend,
                s0,
                backend.s_fun_simple_equality(),
            ));
        }
        return r;
    }
    if str_eq(w, "nequals?") {
        let r = do_equality(backend, cs, backend.fun_simple_non_equality());
        proof {
            assert(m_dispatch(*backend, s0, w@) == m_builtin_equality(
                *backend,
                s0,
                backend.s_fun_simple_non_equality(),
            ));
        }
        return r;
    }
    if str_eq(w, "not") {
        let c = vt1(ValueTypes::Binary);
        let p = vt1(ValueTypes::Binary);
        let r = do_builtin(cs, &c, &p, backend.fun_logical_not());
        proof {
            assert(m_dispatch(*backend, s0, w@) == m_builtin(
                s0,
                c@,
                p@,
                backend.s_fun_logical_not(),
            ));
        }
        return r;
    }
    if str_eq(w, "either?") {
        let c = vt2(ValueTypes::Binary, ValueTypes::Binary);
        let p = vt1(ValueTypes::Binary);
        let r = do_builtin(cs, &c, &p, backend.fun_logical_or());
        proof {
            assert(m_dispatch(*backend, s0, w@) == m_builtin(
                s0,
                c@,
                p@,
                backend.s_fun_logical_or(),
            ));
        }
        return r;
    }
    if str_eq(w, "both?") {
        let c = vt2(ValueTypes::Binary, ValueTypes::Binary);
        let p = vt1(ValueTypes::Binary);
        let r = do_builtin(cs, &c, &p, backend.fun_logical_and());
        proof {
            assert(m_dispatch(*backend, s0, w@) == m_builtin(
                s0,
                c@,
                p@,
                backend.s_fun_logical_and(),
            ));
        }
        return r;
    }
    if str_eq(w, ">?") || str_eq(w, "greater?") {
        let c = vt2(ValueTypes::Number, ValueTypes::Number);
        let p = vt1(ValueTypes::Binary);
        let r = do_builtin(cs, &c, &p, backend.fun_num_greater());
        proof {
            assert(m_dispatch(*backend, s0, w@) == m_builtin(
                s0,
                c@,
                p@,
                backend.s_fun_num_greater(),
            ));
        }
        return r;
    }
    if str_eq(w, ">=?") {
        let c = vt2(ValueTypes::Number, ValueTypes::Number);
        let p = vt1(ValueTypes::Binary);
        let r = do_builtin(cs, &c, &p, backend.fun_num_greater_or_equal());
        proof {
            assert(m_dispatch(*backend, s0, w@) == m_builtin(
                s0,
                c@,
                p@,
                backend.s_fun_num_greater_or_equal(),
            ));
        }
        return r;
    }
    if str_eq(w, "<?") {
        let c = vt2(ValueTypes::Number, ValueTypes::Number);
        let p = vt1(ValueTypes::Binary);
        let r = do_builtin(cs, &c, &p, backend.fun_num_less_than());
        proof {
            assert(m_dispatch(*backend, s0, w@) == m_builtin(
                s0,
                c@,
                p@,
                backend.s_fun_num_less_than(),
            ));
        }
        return r;
    }
    if str_eq(w, "=<?") {
        let c = vt2(ValueTypes::Number, ValueTypes::Number);
        let p = vt1(ValueTypes::Binary);
        let r = do_builtin(cs, &c, &p, backend.fun_num_less_than_or_equal());
        proof {
            assert(m_dispatch(*backend, s0, w@) == m_builtin(
                s0,
                c@,
                p@,
                backend.s_fun_num_less_than_or_equal(),
            ));
        }
        return r;
    }
    if str_eq(w, "break") {
        do_plain_emit(cs, backend.loop_break());
        proof {
            assert(m_dispatch(*backend, s0, w@) == emit(s0, backend.s_loop_break()));
        }
        return Ok(());
    }
    if str_eq(w, "return") {
        do_plain_emit(cs, backend.method_return());
        proof {
            assert(m_dispatch(*backend, s0, w@) == emit(s0, backend.s_method_return()));
        }
        return Ok(());
    }
    let e = cs.throw_error(ErrorKind::UnknownToken(w.to_owned()));
    proof {
        assert(m_dispatch(*backend, s0, w@).error == Some(e.m()));
    }
    Err(e)
}

/// Completes the word being accumulated, if any: logs it and dispatches it.
fn flush_word<B: Backend>(backend: &B, cs: &mut CompileState) -> (r: Result<(), CompileError>)
    requires
        wf(old(cs).m()),
    ensures
        match r {
            Ok(()) => {
                &&& final(cs).m() == m_flush(*backend, old(cs).m())
                &&& m_flush(*backend, old(cs).m()).error is None
                &&& wf(final(cs).m())
                &&& final(cs).linenumber == old(cs).linenumber
                &&& final(cs).tokenumber == old(cs).tokenumber
                &&& final(cs).token_line == old(cs).token_line
            },
            Err(e) => m_flush(*backend, old(cs).m()).error == Some(e.m()),
        },
{
    let ghost s0 = cs.m();
    if cs.word.as_str().is_empty() {
        proof {
            assert(m_flush(*backend, s0) == s0);
        }
        return Ok(());
    }
    let w = cs.word.clone();
    cs.word = String::new();
    cs.log_tokens.push(w.clone());
    let ghost s1 = cs.m();
    proof {
        assert(s1 =~~= (StateModel {
            word: Seq::empty(),
            log_tokens: s0.log_tokens.push(w@),
            ..s0
        }));
        assert(wf(s1));
    }
    let r = handle_token(backend, cs, w.as_str());
    proof {
        assert(m_flush(*backend, s0) == m_dispatch(*backend, s1, w@));
    }
    r
}

/// One character of input, as the tokenizer state machine sees it.
fn scan_char_step<B: Backend>(backend: &B, cs: &mut CompileState, c: char) -> (r: Result<
    (),
    CompileError,
>)
    requires
        wf(old(cs).m()),
        old(cs).linenumber < u64::MAX,
        old(cs).tokenumber < u64::MAX,
    ensures
        match r {
            Ok(()) => {
                &&& final(cs).m() == m_scan_char(*backend, old(cs).m(), c)
                &&& m_scan_char(*backend, old(cs).m(), c).error is None
                &&& wf(final(cs).m())
                &&& final(cs).linenumber <= old(cs).linenumber + 1
                &&& final(cs).tokenumber <= old(cs).tokenumber + 1
                &&& (final(cs).token_line == old(cs).token_line || final(cs).token_line == old(
                    cs,
                ).linenumber)
            },
            Err(e) => m_scan_char(*backend, old(cs).m(), c).error == Some(e.m()),
        },
{
    let ghost s0 = cs.m();
    if cs.iscomment {
        if c == '#' {
            cs.iscomment = false;
        } else if c == '\n' {
            cs.linenumber = cs.linenumber + 1;
            cs.tokenumber = 0;
        }
        proof {
            assert(cs.m() =~~= m_scan_char(*backend, s0, c));
            assert(wf(cs.m()));
        }
        return Ok(());
    }
    if cs.isstring {
        if c == '"' {
            let lit = cs.newstring.clone();
            cs.isstring = false;
            cs.newstring = String::new();
            let ghost s1 = cs.m();
            proof {
                assert(s1 =~~= (StateModel { isstring: false, newstring: Seq::empty(), ..s0 }));
            }
            if cs.typestack.is_empty() {
                let e = cs.throw_error(ErrorKind::StackUnderflow);
                proof {
                    assert(m_scan_char(*backend, s0, c).error == Some(e.m()));
                }
                return Err(e);
            }
            cs.push_type(ValueTypes::Text);
            let frag = backend.push_string(lit.as_str());
            cs.add2body(frag.as_str());
            proof {
                assert(cs.m() =~~= m_scan_char(*backend, s0, c));
                assert(wf(cs.m()));
            }
            return Ok(());
        }
        string_push_char(&mut cs.newstring, c);
        if c == '\n' {
            cs.linenumber = cs.linenumber + 1;
            cs.tokenumber = 0;
        }
        proof {
            assert(cs.m() =~~= m_scan_char(*backend, s0, c));
            assert(wf(cs.m()));
        }
        return Ok(());
    }
    if c == ' ' || c == '\t' {
        let r = flush_word(backend, cs);
        proof {
            assert(m_scan_char(*backend, s0, c) == m_flush(*backend, s0));
        }
        return r;
    }
    if c == '\n' {
        match flush_word(backend, cs) {
            Err(e) => {
                proof {
                    assert(m_scan_char(*backend, s0, c).error == Some(e.m()));
                }
                return Err(e);
            },
            Ok(()) => {},
        }
        cs.linenumber = cs.linenumber + 1;
        cs.tokenumber = 0;
        proof {
            assert(cs.m() =~~= m_scan_char(*backend, s0, c));
            assert(wf(cs.m()));
        }
        return Ok(());
    }
    if c == '#' {
        cs.iscomment = true;
        proof {
            assert(cs.m() =~~= m_scan_char(*backend, s0, c));
            assert(wf(cs.m()));
        }
        return Ok(());
    }
    if c == '"' {
        cs.isstring = true;
        proof {
            assert(cs.m() =~~= m_scan_char(*backend, s0, c));
            assert(wf(cs.m()));
        }
        return Ok(());
    }
    if cs.word.as_str().is_empty() {
        string_push_char(&mut cs.word, c);
        cs.token_line = cs.linenumber;
        cs.token_file = cs.current_file.clone();
        cs.tokenumber = cs.tokenumber + 1;
        proof {
            assert(Seq::<char>::empty().push(c) =~= seq![c]);
            assert(cs.m() =~~= m_scan_char(*backend, s0, c));
            assert(wf(cs.m()));
        }
        return Ok(());
    }
    string_push_char(&mut cs.word, c);
    proof {
        assert(cs.m() =~~= m_scan_char(*backend, s0, c));
        assert(wf(cs.m()));
    }
    Ok(())
}

/// Compiles a whole source text against the given backend.  On success the
/// returned state matches the model's final state, whose `out` field holds
/// the compiled text of the root buffer; on failure the diagnostic is
/// exactly the one the model raises.
pub fn compile<B: Backend>(backend: &B, code: &str) -> (r: Result<CompileState, CompileError>)
    requires
        code@.len() < 0x8000_0000_0000_0000,
    ensures
        match r {
            Ok(cs) => m_compile(*backend, code@).error is None && cs.m() == m_compile(
                *backend,
                code@,
            ),
            Err(e) => m_compile(*backend, code@).error == Some(e.m()),
        },
{
    let mut cs = CompileState::new();
    let n = code.unicode_len();
    let mut i: usize = 0;
    proof {
        assert(code@.take(0int) =~= Seq::<char>::empty());
    }
    while i < n
        invariant
            n == code@.len(),
            n < 0x8000_0000_0000_0000,
            i <= n,
            cs.m() == m_scan(*backend, m_init(), code@.take(i as int)),
            wf(cs.m()),
            cs.linenumber as int <= 1 + i as int,
            cs.tokenumber as int <= i as int,
            cs.token_line as int <= 1 + i as int,
        decreases n - i,
    {
        let c = code.get_char(i);
        let ghost scur = m_scan(*backend, m_init(), code@.take(i as int));
        match scan_char_step(backend, &mut cs, c) {
            Ok(()) => {},
            Err(e) => {
                proof {
                    let serr = m_scan_char(*backend, scur, code@[i as int]);
                    assert(code@ =~= code@.take(i as int) + seq![code@[i as int]] + code@.skip(
                        i + 1 as int,
                    ));
                    lemma_scan_append(
                        *backend,
                        m_init(),
                        code@.take(i as int) + seq![code@[i as int]],
                        code@.skip(i + 1 as int),
                    );
                    lemma_scan_append(
                        *backend,
                        m_init(),
                        code@.take(i as int),
                        seq![code@[i as int]],
                    );
                    assert(seq![code@[i as int]].first() == code@[i as int]);
                    assert(seq![code@[i as int]].drop_first() =~= Seq::<char>::empty());
                    assert(m_scan(*backend, scur, seq![code@[i as int]]) == m_scan(
                        *backend,
                        serr,
                        seq![code@[i as int]].drop_first(),
                    ));
                    assert(m_scan(*backend, serr, Seq::<char>::empty()) == serr);
                    lemma_scan_frozen(*backend, serr, code@.skip(i + 1 as int));
                    assert(m_scan(*backend, m_init(), code@) == serr);
                    assert(m_flush(*backend, serr) == serr);
                    assert(m_compile(*backend, code@).error == Some(e.m()));
                }
                return Err(e);
            },
        }
        proof {
            lemma_scan_append(*backend, m_init(), code@.take(i as int), seq![code@[i as int]]);
            assert(code@.take(i as int) + seq![code@[i as int]] =~= code@.take(i + 1 as int));
            assert(seq![code@[i as int]].first() == code@[i as int]);
            assert(seq![code@[i as int]].drop_first() =~= Seq::<char>::empty());
            assert(m_scan(*backend, scur, seq![code@[i as int]]) == m_scan(
                *backend,
                m_scan_char(*backend, scur, code@[i as int]),
                seq![code@[i as int]].drop_first(),
            ));
            assert(m_scan(
                *backend,
                m_scan_char(*backend, scur, code@[i as int]),
                Seq::<char>::empty(),
            ) == m_scan_char(*backend, scur, code@[i as int]));
        }
        i += 1;
    }
    proof {
        assert(code@.take(n as int) =~= code@);
    }
    match flush_word(backend, &mut cs) {
        Err(e) => {
            proof {
                assert(m_compile(*backend, code@).error == Some(e.m()));
            }
            return Err(e);
        },
        Ok(()) => {},
    }
    let root = cs.bodystack.remove(0);
    cs.out = Some(root);
    proof {
        assert(cs.m() =~~= m_compile(*backend, code@));
    }
    Ok(cs)
}

/// Compiles a whole source text and wraps it in the backend's runtime
/// preamble, yielding the full target program.
pub fn compile_full<B: Backend>(backend: B, code: &str) -> (r: Result<String, CompileError>)
    requires
        code@.len() < 0x8000_0000_0000_0000,
    ensures
        match r {
            Ok(s) => m_compile(backend, code@).error is None && m_compile(
                backend,
                code@,
            ).out is Some && s@ == backend.s_complete(m_compile(backend, code@).out.unwrap()),
            Err(e) => m_compile(backend, code@).error == Some(e.m()),
        },
{
    match compile(&backend, code) {
        Ok(cs) => {
            proof {
                assert(cs.m().out is Some);
            }
            let built = cs.out.unwrap();
            Ok(backend.complete(built.as_str()))
        },
        Err(e) => Err(e),
    }
}

} // verus!
