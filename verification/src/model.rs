//! The mathematical model of the compiler: a ghost mirror of the compile
//! state and a small-step interpreter over input characters.  The executable
//! front-end is proved to compute exactly what this interpreter describes, so
//! every law of the compiler can be stated and proved here.

use vstd::prelude::*;

use crate::backends::Backend;
use crate::errors::{ErrorKindModel, ErrorModel};
use crate::state::{DefinitionTypes, MethodClass, ValueTypes};

verus! {

/// A user-defined method record, in mathematical form.
#[verifier::ext_equal]
pub ghost struct MethodModel {
    pub name: Seq<char>,
    pub code: Seq<char>,
    pub class: MethodClass,
    pub itypes: Seq<ValueTypes>,
    pub etypes: Seq<ValueTypes>,
}

/// The whole compile state, in mathematical form.  `error` is `None` until a
/// fatal diagnostic is raised; from then on every step leaves the state
/// untouched.
#[verifier::ext_equal]
pub ghost struct StateModel {
    pub out: Option<Seq<char>>,
    pub log_tokens: Seq<Seq<char>>,
    pub methods: Seq<MethodModel>,
    pub word: Seq<char>,
    pub defnstack: Seq<DefinitionTypes>,
    pub metastack: Seq<Seq<Seq<char>>>,
    pub bodystack: Seq<Seq<char>>,
    pub varscopes: Seq<Seq<(Seq<char>, ValueTypes)>>,
    pub typestack: Seq<Seq<ValueTypes>>,
    pub voidstack: Seq<Seq<ValueTypes>>,
    pub iscomment: bool,
    pub isstring: bool,
    pub newstring: Seq<char>,
    pub line: int,
    pub tokenumber: int,
    pub token_line: int,
    pub token_file: Seq<char>,
    pub current_file: Seq<char>,
    pub error: Option<ErrorModel>,
}

// ---------------------------------------------------------------------------
// Symbol lookup
// ---------------------------------------------------------------------------
/// First method of the given name, scanning in registration order.
pub open spec fn lookup_method(ms: Seq<MethodModel>, name: Seq<char>) -> Option<MethodModel>
    decreases ms.len(),
{
    if ms.len() == 0 {
        None
    } else if ms.first().name == name {
        Some(ms.first())
    } else {
        lookup_method(ms.drop_first(), name)
    }
}

/// First binding of the given name inside one scope.
pub open spec fn lookup_scope(sc: Seq<(Seq<char>, ValueTypes)>, name: Seq<char>) -> Option<
    ValueTypes,
>
    decreases sc.len(),
{
    if sc.len() == 0 {
        None
    } else if sc.first().0 == name {
        Some(sc.first().1)
    } else {
        lookup_scope(sc.drop_first(), name)
    }
}

/// Variable lookup walking the scopes from innermost to outermost.
pub open spec fn lookup_vars(scopes: Seq<Seq<(Seq<char>, ValueTypes)>>, name: Seq<char>) -> Option<
    ValueTypes,
>
    decreases scopes.len(),
{
    if scopes.len() == 0 {
        None
    } else {
        match lookup_scope(scopes.last(), name) {
            Some(t) => Some(t),
            None => lookup_vars(scopes.drop_last(), name),
        }
    }
}

// ---------------------------------------------------------------------------
// Token shapes
// ---------------------------------------------------------------------------
/// Whether a character is a decimal digit.
pub open spec fn is_digit(c: char) -> bool {
    '0' <= c && c <= '9'
}

/// Whether every character of the sequence is a decimal digit.
pub open spec fn all_digits(s: Seq<char>) -> bool {
    forall|i: int| 0 <= i < s.len() ==> is_digit(#[trigger] s[i])
}

/// Whether a token is an integer literal: an optional leading minus sign
/// followed by one or more digits.
pub open spec fn is_int_lit(w: Seq<char>) -> bool {
    if w.len() == 0 {
        false
    } else if w.first() == '-' {
        w.len() > 1 && all_digits(w.drop_first())
    } else {
        all_digits(w)
    }
}

// ---------------------------------------------------------------------------
// Structural invariants
// ---------------------------------------------------------------------------
/// Kinds that own a code buffer of their own.
pub open spec fn has_body(k: DefinitionTypes) -> bool {
    k == DefinitionTypes::Function || k == DefinitionTypes::Action || k == DefinitionTypes::Then
        || k == DefinitionTypes::Elect || k == DefinitionTypes::Loop || k
        == DefinitionTypes::Module
}

/// Kinds that open a variable scope.
pub open spec fn has_scope(k: DefinitionTypes) -> bool {
    k == DefinitionTypes::Function || k == DefinitionTypes::Action || k == DefinitionTypes::Then
}

/// Kinds that open an operand type frame (and its parallel void frame).
pub open spec fn has_frame(k: DefinitionTypes) -> bool {
    k == DefinitionTypes::Function || k == DefinitionTypes::Action
}

pub open spec fn count_bodies(ds: Seq<DefinitionTypes>) -> int
    decreases ds.len(),
{
    if ds.len() == 0 {
        0
    } else {
        count_bodies(ds.drop_last()) + if has_body(ds.last()) {
            1int
        } else {
            0int
        }
    }
}

pub open spec fn count_scopes(ds: Seq<DefinitionTypes>) -> int
    decreases ds.len(),
{
    if ds.len() == 0 {
        0
    } else {
        count_scopes(ds.drop_last()) + if has_scope(ds.last()) {
            1int
        } else {
            0int
        }
    }
}

pub open spec fn count_frames(ds: Seq<DefinitionTypes>) -> int
    decreases ds.len(),
{
    if ds.len() == 0 {
        0
    } else {
        count_frames(ds.drop_last()) + if has_frame(ds.last()) {
            1int
        } else {
            0int
        }
    }
}

/// The structural invariants of the compile state: every open block has a
/// metadata slot, and the parallel stacks have exactly the population that
/// the open block kinds dictate.
pub open spec fn wf(s: StateModel) -> bool {
    &&& s.metastack.len() == s.defnstack.len()
    &&& s.bodystack.len() == 1 + count_bodies(s.defnstack)
    &&& s.varscopes.len() == 1 + count_scopes(s.defnstack)
    &&& s.typestack.len() == count_frames(s.defnstack)
    &&& s.voidstack.len() == s.typestack.len()
    &&& !s.defnstack.contains(DefinitionTypes::Negative)
}

/// The name-uniqueness invariant: a name is bound in at most one place.  The
/// method table holds no name twice, no method name is simultaneously
/// visible as a variable, no name is bound in two visible scopes at once,
/// and no single scope binds a name twice.  Every declaration site checks
/// for the name before binding it, which is what keeps this invariant; the
/// preservation lemmas stand with the other laws.
pub open spec fn names_unique(s: StateModel) -> bool {
    &&& forall|i: int, j: int|
        0 <= i < j < s.methods.len() ==> (#[trigger] s.methods[i].name) != (
        #[trigger] s.methods[j].name)
    &&& forall|n: Seq<char>|
        (#[trigger] lookup_method(s.methods, n)) is Some ==> lookup_vars(s.varscopes, n) is None
    &&& forall|i: int, j: int, n: Seq<char>|
        0 <= i < j < s.varscopes.len() ==> !((#[trigger] lookup_scope(s.varscopes[i], n)) is Some
            && (#[trigger] lookup_scope(s.varscopes[j], n)) is Some)
    &&& forall|i: int, p: int, q: int|
        0 <= i < s.varscopes.len() && 0 <= p < q < s.varscopes[i].len() ==> (
        #[trigger] s.varscopes[i][p].0) != (#[trigger] s.varscopes[i][q].0)
}

// ---------------------------------------------------------------------------
// Elementary state transformers
// ---------------------------------------------------------------------------
/// Raises a fatal diagnostic at the position where the current token began.
pub open spec fn set_error(s: StateModel, k: ErrorKindModel) -> StateModel {
    StateModel {
        error: Some(
            ErrorModel { file: s.token_file, line: s.token_line, word: s.tokenumber, kind: k },
        ),
        ..s
    }
}

/// Appends a fragment to the innermost code buffer.
pub open spec fn emit(s: StateModel, frag: Seq<char>) -> StateModel {
    StateModel {
        bodystack: s.bodystack.update(s.bodystack.len() - 1, s.bodystack.last() + frag),
        ..s
    }
}

/// Pushes one type onto the innermost operand frame; a fatal diagnostic if no
/// frame is open.
pub open spec fn m_push_type(s: StateModel, t: ValueTypes) -> StateModel {
    if s.error is Some {
        s
    } else if s.typestack.len() == 0 {
        set_error(s, ErrorKindModel::StackUnderflow)
    } else {
        StateModel {
            typestack: s.typestack.update(s.typestack.len() - 1, s.typestack.last().push(t)),
            ..s
        }
    }
}

/// Pushes a whole sequence of types, first element first.
pub open spec fn m_push_types(s: StateModel, ts: Seq<ValueTypes>) -> StateModel
    decreases ts.len(),
{
    if s.error is Some || ts.len() == 0 {
        s
    } else {
        m_push_types(m_push_type(s, ts.first()), ts.drop_first())
    }
}

/// Pops the top of the innermost operand frame; a fatal diagnostic if there
/// is no frame or it is empty, since the demanded type cannot be named.
pub open spec fn m_pop_type(s: StateModel) -> (StateModel, ValueTypes) {
    if s.error is Some {
        (s, ValueTypes::Fake)
    } else if s.typestack.len() == 0 || s.typestack.last().len() == 0 {
        (set_error(s, ErrorKindModel::StackUnderflow), ValueTypes::Fake)
    } else {
        (
            StateModel {
                typestack: s.typestack.update(
                    s.typestack.len() - 1,
                    s.typestack.last().drop_last(),
                ),
                ..s
            },
            s.typestack.last().last(),
        )
    }
}

/// Drains the innermost frame against a sequence of expected types: a
/// mismatch is fatal, and a demand the frame cannot meet is recorded into the
/// parallel void frame as a required input of the enclosing block.
pub open spec fn m_expect_types(s: StateModel, expected: Seq<ValueTypes>) -> StateModel
    decreases expected.len(),
{
    if s.error is Some || expected.len() == 0 {
        s
    } else if s.typestack.len() == 0 || s.voidstack.len() == 0 {
        set_error(s, ErrorKindModel::StackUnderflow)
    } else {
        let frame = s.typestack.last();
        if frame.len() > 0 {
            let found = frame.last();
            if found != expected.first() {
                set_error(s, ErrorKindModel::TypeMismatch(expected.first(), found))
            } else {
                m_expect_types(
                    StateModel {
                        typestack: s.typestack.update(s.typestack.len() - 1, frame.drop_last()),
                        ..s
                    },
                    expected.drop_first(),
                )
            }
        } else {
            m_expect_types(
                StateModel {
                    voidstack: s.voidstack.update(
                        s.voidstack.len() - 1,
                        s.voidstack.last().push(expected.first()),
                    ),
                    ..s
                },
                expected.drop_first(),
            )
        }
    }
}

/// Closes the innermost type and void frames against each other: the types a
/// block leaves behind must equal the inputs it demanded, so that the block
/// has no net footprint; the demand is then re-raised in the enclosing frame.
pub open spec fn m_no_footprint(s: StateModel) -> StateModel {
    if s.error is Some {
        s
    } else if s.typestack.len() == 0 || s.voidstack.len() == 0 {
        set_error(s, ErrorKindModel::StackUnderflow)
    } else {
        let ret = s.typestack.last();
        let void = s.voidstack.last();
        let s1 = StateModel {
            typestack: s.typestack.drop_last(),
            voidstack: s.voidstack.drop_last(),
            ..s
        };
        if void != ret {
            set_error(s1, ErrorKindModel::FootprintMismatch(ret, void))
        } else {
            m_expect_types(s1, void)
        }
    }
}

/// Consumes then produces: the declared stack effect of a builtin or of a
/// user method.
pub open spec fn m_apply(
    s: StateModel,
    consumes: Seq<ValueTypes>,
    produces: Seq<ValueTypes>,
) -> StateModel {
    m_push_types(m_expect_types(s, consumes), produces)
}

/// Opens a block: pushes its kind and metadata slot, and grows whichever
/// parallel stacks the kind owns.
pub open spec fn m_open(s: StateModel, kind: DefinitionTypes) -> StateModel {
    StateModel {
        defnstack: s.defnstack.push(kind),
        metastack: s.metastack.push(Seq::empty()),
        bodystack: if has_body(kind) {
            s.bodystack.push(Seq::empty())
        } else {
            s.bodystack
        },
        varscopes: if has_scope(kind) {
            s.varscopes.push(Seq::empty())
        } else {
            s.varscopes
        },
        typestack: if has_frame(kind) {
            s.typestack.push(Seq::empty())
        } else {
            s.typestack
        },
        voidstack: if has_frame(kind) {
            s.voidstack.push(Seq::empty())
        } else {
            s.voidstack
        },
        ..s
    }
}

// ---------------------------------------------------------------------------
// Block closers
// ---------------------------------------------------------------------------
/// Closes a function or action: registers the captured body under the block's
/// name with the stack effect inferred for it, and emits the definition into
/// the enclosing buffer.  The innermost block is known to be of the matching
/// kind.
pub open spec fn m_close_method<B: Backend>(b: B, s: StateModel, class: MethodClass) -> StateModel {
    let meta = s.metastack.last();
    if meta.len() == 0 {
        set_error(s, ErrorKindModel::NoName)
    } else {
        let name = meta.first();
        if class == MethodClass::Function && name == "main"@ {
            set_error(s, ErrorKindModel::MainAsFunction)
        } else if lookup_method(s.methods, name) is Some {
            set_error(s, ErrorKindModel::DuplicateSymbol(name))
        } else {
            let body = s.bodystack.last();
            let s1 = StateModel {
                defnstack: s.defnstack.drop_last(),
                metastack: s.metastack.drop_last(),
                bodystack: s.bodystack.drop_last(),
                varscopes: s.varscopes.drop_last(),
                typestack: s.typestack.drop_last(),
                voidstack: s.voidstack.drop_last(),
                methods: s.methods.push(
                    MethodModel {
                        name: name,
                        code: body,
                        class: class,
                        itypes: s.voidstack.last(),
                        etypes: s.typestack.last(),
                    },
                ),
                ..s
            };
            emit(s1, b.s_create_function(name, body))
        }
    }
}

/// Closes a guarded block.  Under an enclosing `elect`, arms after the first
/// are additionally gated on no earlier guard having been taken; the
/// enclosing `elect`'s metadata records that an arm has closed.
pub open spec fn m_close_then<B: Backend>(b: B, s: StateModel) -> StateModel {
    let body = s.bodystack.last();
    let s1 = StateModel {
        defnstack: s.defnstack.drop_last(),
        metastack: s.metastack.drop_last(),
        bodystack: s.bodystack.drop_last(),
        varscopes: s.varscopes.drop_last(),
        ..s
    };
    if s1.defnstack.len() > 0 && s1.defnstack.last() == DefinitionTypes::Elect {
        let first = s1.metastack.last().len() == 0;
        let s2 = StateModel {
            metastack: s1.metastack.update(
                s1.metastack.len() - 1,
                s1.metastack.last().push(Seq::empty()),
            ),
            ..s1
        };
        if first {
            emit(s2, b.s_create_then_condition(body))
        } else {
            emit(s2, b.s_create_else_condition(b.s_create_then_condition(body)))
        }
    } else {
        emit(s1, b.s_create_then_condition(body))
    }
}

/// Closes an `elect` wrapper.
pub open spec fn m_close_elect<B: Backend>(b: B, s: StateModel) -> StateModel {
    let body = s.bodystack.last();
    let s1 = StateModel {
        defnstack: s.defnstack.drop_last(),
        metastack: s.metastack.drop_last(),
        bodystack: s.bodystack.drop_last(),
        ..s
    };
    emit(s1, b.s_create_elect_block(body))
}

/// Closes a loop block.
pub open spec fn m_close_loop<B: Backend>(b: B, s: StateModel) -> StateModel {
    let body = s.bodystack.last();
    let s1 = StateModel {
        defnstack: s.defnstack.drop_last(),
        metastack: s.metastack.drop_last(),
        bodystack: s.bodystack.drop_last(),
        ..s
    };
    emit(s1, b.s_create_loop_block(body))
}

/// Closes a module block; the captured body is discarded, the keyword being
/// reserved without semantics.
pub open spec fn m_close_module(s: StateModel) -> StateModel {
    StateModel {
        defnstack: s.defnstack.drop_last(),
        metastack: s.metastack.drop_last(),
        bodystack: s.bodystack.drop_last(),
        ..s
    }
}

/// Closes whatever block is innermost; the caller guarantees the stack is
/// non-empty and the innermost kind matches.
pub open spec fn m_close<B: Backend>(b: B, s: StateModel, kind: DefinitionTypes) -> StateModel {
    match kind {
        DefinitionTypes::Function => m_close_method(b, s, MethodClass::Function),
        DefinitionTypes::Action => m_close_method(b, s, MethodClass::Action),
        DefinitionTypes::Then => m_close_then(b, s),
        DefinitionTypes::Elect => m_close_elect(b, s),
        DefinitionTypes::Loop => m_close_loop(b, s),
        DefinitionTypes::Module => m_close_module(s),
        _ => set_error(s, ErrorKindModel::MisplacedSemicolon),
    }
}

/// A closer token of a stated kind: misplaced if nothing is open or the
/// innermost kind differs.
pub open spec fn m_closer<B: Backend>(b: B, s: StateModel, kind: DefinitionTypes) -> StateModel {
    if s.defnstack.len() == 0 {
        set_error(s, ErrorKindModel::NoBlockToEnd)
    } else if s.defnstack.last() != kind {
        set_error(s, ErrorKindModel::MisplacedEnding(kind))
    } else {
        m_close(b, s, kind)
    }
}

// ---------------------------------------------------------------------------
// Dispatch arms for the remaining token classes
// ---------------------------------------------------------------------------
/// A token reaching an open `linkin` declaration: the first is the class, the
/// second the name, which is registered as externally supplied.
pub open spec fn m_linkin_arg<B: Backend>(b: B, s: StateModel, w: Seq<char>) -> StateModel {
    let meta = s.metastack.last();
    if meta.len() == 0 {
        StateModel { metastack: s.metastack.update(s.metastack.len() - 1, meta.push(w)), ..s }
    } else {
        let class = meta.first();
        let name = w;
        if class != "fun"@ && class != "act"@ {
            set_error(s, ErrorKindModel::InvalidLinkinClass(class))
        } else if lookup_method(s.methods, name) is Some || lookup_vars(s.varscopes, name) is Some {
            set_error(s, ErrorKindModel::DuplicateSymbol(name))
        } else {
            let s1 = StateModel {
                defnstack: s.defnstack.drop_last(),
                metastack: s.metastack.drop_last(),
                methods: s.methods.push(
                    MethodModel {
                        name: name,
                        code: "LINKED IN"@,
                        class: if class == "fun"@ {
                            MethodClass::Function
                        } else {
                            MethodClass::Action
                        },
                        itypes: Seq::empty(),
                        etypes: Seq::empty(),
                    },
                ),
                ..s
            };
            emit(s1, b.s_linkin_function(name))
        }
    }
}

/// A token reaching an open `var` declaration: the variable's name.  Its type
/// is whatever the operand stack holds on top.
pub open spec fn m_declare_variable<B: Backend>(b: B, s: StateModel, w: Seq<char>) -> StateModel {
    if lookup_method(s.methods, w) is Some || lookup_vars(s.varscopes, w) is Some {
        set_error(s, ErrorKindModel::DuplicateSymbol(w))
    } else {
        let (s1, t) = m_pop_type(s);
        if s1.error is Some {
            s1
        } else {
            let s2 = StateModel {
                defnstack: s1.defnstack.drop_last(),
                metastack: s1.metastack.drop_last(),
                varscopes: s1.varscopes.update(
                    s1.varscopes.len() - 1,
                    s1.varscopes.last().push((w, t)),
                ),
                ..s1
            };
            emit(s2, b.s_create_variable(w))
        }
    }
}

/// The first token after `fun`/`act`: the name being declared.  Any visible
/// symbol of the same name makes the declaration a duplicate.
pub open spec fn m_capture_name(s: StateModel, w: Seq<char>) -> StateModel {
    if lookup_method(s.methods, w) is Some || lookup_vars(s.varscopes, w) is Some {
        set_error(s, ErrorKindModel::DuplicateSymbol(w))
    } else {
        StateModel {
            metastack: s.metastack.update(s.metastack.len() - 1, s.metastack.last().push(w)),
            ..s
        }
    }
}

/// A reference to a registered method: applies its stack effect and emits the
/// call.  An action may not be referenced anywhere inside a function.
pub open spec fn m_call_method<B: Backend>(b: B, s: StateModel, w: Seq<char>) -> StateModel {
    let m = lookup_method(s.methods, w).unwrap();
    if m.class == MethodClass::Action && s.defnstack.contains(DefinitionTypes::Function) {
        set_error(s, ErrorKindModel::ActionInFunction)
    } else {
        let s1 = m_apply(s, m.itypes, m.etypes);
        if s1.error is Some {
            s1
        } else {
            emit(s1, b.s_user_function(w))
        }
    }
}

/// A `$name` token: reads a variable in scope, pushing its type.
pub open spec fn m_read_variable<B: Backend>(b: B, s: StateModel, name: Seq<char>) -> StateModel {
    match lookup_vars(s.varscopes, name) {
        None => set_error(s, ErrorKindModel::UndefinedVariable(name)),
        Some(t) => {
            let s1 = m_push_type(s, t);
            if s1.error is Some {
                s1
            } else {
                emit(s1, b.s_read_variable(name))
            }
        },
    }
}

/// A `name!` token: writes a variable in scope, consuming its type.
pub open spec fn m_write_variable<B: Backend>(b: B, s: StateModel, name: Seq<char>) -> StateModel {
    match lookup_vars(s.varscopes, name) {
        None => set_error(s, ErrorKindModel::UndefinedVariable(name)),
        Some(t) => {
            let s1 = m_expect_types(s, seq![t]);
            if s1.error is Some {
                s1
            } else {
                emit(s1, b.s_write_variable(name))
            }
        },
    }
}

/// A builtin with a fixed consume/produce effect and a fixed fragment.
pub open spec fn m_builtin(
    s: StateModel,
    consumes: Seq<ValueTypes>,
    produces: Seq<ValueTypes>,
    frag: Seq<char>,
) -> StateModel {
    let s1 = m_apply(s, consumes, produces);
    if s1.error is Some {
        s1
    } else {
        emit(s1, frag)
    }
}

/// `copy`: duplicates the top operand whatever its type.
pub open spec fn m_builtin_copy<B: Backend>(b: B, s: StateModel) -> StateModel {
    let (s1, t) = m_pop_type(s);
    if s1.error is Some {
        s1
    } else {
        emit(m_push_types(s1, seq![t, t]), b.s_fun_copy())
    }
}

/// `drop`: discards the top operand whatever its type.
pub open spec fn m_builtin_drop<B: Backend>(b: B, s: StateModel) -> StateModel {
    let (s1, t) = m_pop_type(s);
    if s1.error is Some {
        s1
    } else {
        emit(s1, b.s_fun_drop())
    }
}

/// `swap`: exchanges the two top operands whatever their types.
pub open spec fn m_builtin_swap<B: Backend>(b: B, s: StateModel) -> StateModel {
    let (s1, t1) = m_pop_type(s);
    let (s2, t2) = m_pop_type(s1);
    if s2.error is Some {
        s2
    } else {
        emit(m_push_types(s2, seq![t1, t2]), b.s_fun_swap())
    }
}

/// Equality tests accept operands of any types and produce a boolean.
pub open spec fn m_builtin_equality<B: Backend>(b: B, s: StateModel, frag: Seq<char>) -> StateModel {
    let (s1, t1) = m_pop_type(s);
    let (s2, t2) = m_pop_type(s1);
    if s2.error is Some {
        s2
    } else {
        emit(m_push_types(s2, seq![ValueTypes::Binary]), frag)
    }
}

// ---------------------------------------------------------------------------
// Token dispatch
// ---------------------------------------------------------------------------
/// What one completed token does to the state.  The arms are ordered by
/// priority: an open argument-collecting declaration claims the token first,
/// then keyword openers and closers, then the name slot of a freshly opened
/// method, then references, literals and builtins; anything left is unknown.
pub open spec fn m_dispatch<B: Backend>(b: B, s: StateModel, w: Seq<char>) -> StateModel {
    let num = seq![ValueTypes::Number];
    let num2 = seq![ValueTypes::Number, ValueTypes::Number];
    let bin = seq![ValueTypes::Binary];
    let bin2 = seq![ValueTypes::Binary, ValueTypes::Binary];
    if s.defnstack.len() > 0 && s.defnstack.last() == DefinitionTypes::Linkin
        && s.metastack.last().len() < 2 {
        m_linkin_arg(b, s, w)
    } else if s.defnstack.len() > 0 && s.defnstack.last() == DefinitionTypes::Variable {
        m_declare_variable(b, s, w)
    } else if w == "fun:"@ || w == "fun"@ {
        m_open(s, DefinitionTypes::Function)
    } else if w == "act:"@ || w == "act"@ {
        m_open(s, DefinitionTypes::Action)
    } else if w == "then:"@ || w == "then"@ {
        let s1 = m_expect_types(s, bin);
        if s1.error is Some {
            s1
        } else {
            m_open(s1, DefinitionTypes::Then)
        }
    } else if w == "elect:"@ || w == "elect"@ || w == "when:"@ || w == "when"@ {
        m_open(s, DefinitionTypes::Elect)
    } else if w == "loop:"@ || w == "loop"@ || w == "cycle:"@ || w == "cycle"@ {
        m_open(s, DefinitionTypes::Loop)
    } else if w == "module"@ {
        m_open(s, DefinitionTypes::Module)
    } else if w == "var"@ {
        m_open(s, DefinitionTypes::Variable)
    } else if w == "linkin"@ {
        m_open(s, DefinitionTypes::Linkin)
    } else if w == ":fun"@ || w == ";fun"@ || w == "endfun"@ {
        m_closer(b, s, DefinitionTypes::Function)
    } else if w == ":act"@ {
        m_closer(b, s, DefinitionTypes::Action)
    } else if w == ":then"@ {
        m_closer(b, s, DefinitionTypes::Then)
    } else if w == ":elect"@ || w == ":when"@ {
        m_closer(b, s, DefinitionTypes::Elect)
    } else if w == ":loop"@ || w == ":cycle"@ {
        m_closer(b, s, DefinitionTypes::Loop)
    } else if w == ":module"@ {
        m_closer(b, s, DefinitionTypes::Module)
    } else if w == ";"@ || w == "end"@ {
        if s.defnstack.len() == 0 {
            set_error(s, ErrorKindModel::MisplacedSemicolon)
        } else {
            m_close(b, s, s.defnstack.last())
        }
    } else if s.defnstack.len() > 0 && (s.defnstack.last() == DefinitionTypes::Function
        || s.defnstack.last() == DefinitionTypes::Action) && s.metastack.last().len() == 0 {
        m_capture_name(s, w)
    } else if lookup_method(s.methods, w) is Some {
        m_call_method(b, s, w)
    } else if w.len() > 0 && w.first() == '$' {
        m_read_variable(b, s, w.drop_first())
    } else if w.len() > 0 && w.last() == '!' {
        m_write_variable(b, s, w.drop_last())
    } else if is_int_lit(w) {
        let s1 = m_push_type(s, ValueTypes::Number);
        if s1.error is Some {
            s1
        } else {
            emit(s1, b.s_push_integer(w))
        }
    } else if w == "true"@ || w == "false"@ {
        let s1 = m_push_type(s, ValueTypes::Binary);
        if s1.error is Some {
            s1
        } else {
            emit(
                s1,
                if w == "true"@ {
                    b.s_push_integer("1"@)
                } else {
                    b.s_push_integer("0"@)
                },
            )
        }
    } else if w == "+"@ {
        m_builtin(s, num2, num, b.s_fun_add())
    } else if w == "-"@ {
        m_builtin(s, num2, num, b.s_fun_sub())
    } else if w == "*"@ {
        m_builtin(s, num2, num, b.s_fun_mul())
    } else if w == "/"@ {
        m_builtin(s, num2, num, b.s_fun_div())
    } else if w == "mod"@ {
        m_builtin(s, num2, num, b.s_fun_mod())
    } else if w == "^"@ || w == "copy"@ {
        m_builtin_copy(b, s)
    } else if w == "v"@ || w == "drop"@ {
        m_builtin_drop(b, s)
    } else if w == "swap"@ {
        m_builtin_swap(b, s)
    } else if w == "=?"@ || w == "equals?"@ {
        m_builtin_equality(b, s, b.s_fun_simple_equality())
    } else if w == "nequals?"@ {
        m_builtin_equality(b, s, b.s_fun_simple_non_equality())
    } else if w == "not"@ {
        m_builtin(s, bin, bin, b.s_fun_logical_not())
    } else if w == "either?"@ {
        m_builtin(s, bin2, bin, b.s_fun_logical_or())
    } else if w == "both?"@ {
        m_builtin(s, bin2, bin, b.s_fun_logical_and())
    } else if w == ">?"@ || w == "greater?"@ {
        m_builtin(s, num2, bin, b.s_fun_num_greater())
    } else if w == ">=?"@ {
        m_builtin(s, num2, bin, b.s_fun_num_greater_or_equal())
    } else if w == "<?"@ {
        m_builtin(s, num2, bin, b.s_fun_num_less_than())
    } else if w == "=<?"@ {
        m_builtin(s, num2, bin, b.s_fun_num_less_than_or_equal())
    } else if w == "break"@ {
        emit(s, b.s_loop_break())
    } else if w == "return"@ {
        emit(s, b.s_method_return())
    } else {
        set_error(s, ErrorKindModel::UnknownToken(w))
    }
}

// ---------------------------------------------------------------------------
// Character scanning
// ---------------------------------------------------------------------------
/// Completes the word being accumulated, if any: logs it and dispatches it.
pub open spec fn m_flush<B: Backend>(b: B, s: StateModel) -> StateModel {
    if s.error is Some {
        s
    } else if s.word.len() == 0 {
        s
    } else {
        let w = s.word;
        m_dispatch(b, StateModel { word: Seq::empty(), log_tokens: s.log_tokens.push(w), ..s }, w)
    }
}

/// One character of input.  Comments swallow everything to the closing `#`;
/// a string literal accumulates until the closing quote and is then emitted
/// directly as a string push; whitespace completes the pending word; any
/// other character extends it, snapshotting the position where it began.
pub open spec fn m_scan_char<B: Backend>(b: B, s: StateModel, c: char) -> StateModel {
    if s.error is Some {
        s
    } else if s.iscomment {
        if c == '#' {
            StateModel { iscomment: false, ..s }
        } else if c == '\n' {
            StateModel { line: s.line + 1, tokenumber: 0, ..s }
        } else {
            s
        }
    } else if s.isstring {
        if c == '"' {
            let lit = s.newstring;
            let s1 = StateModel { isstring: false, newstring: Seq::empty(), ..s };
            let s2 = m_push_type(s1, ValueTypes::Text);
            if s2.error is Some {
                s2
            } else {
                emit(s2, b.s_push_string(lit))
            }
        } else if c == '\n' {
            StateModel { newstring: s.newstring.push(c), line: s.line + 1, tokenumber: 0, ..s }
        } else {
            StateModel { newstring: s.newstring.push(c), ..s }
        }
    } else if c == ' ' || c == '\t' {
        m_flush(b, s)
    } else if c == '\n' {
        let s1 = m_flush(b, s);
        if s1.error is Some {
            s1
        } else {
            StateModel { line: s1.line + 1, tokenumber: 0, ..s1 }
        }
    } else if c == '#' {
        StateModel { iscomment: true, ..s }
    } else if c == '"' {
        StateModel { isstring: true, ..s }
    } else if s.word.len() == 0 {
        StateModel {
            word: seq![c],
            token_line: s.line,
            token_file: s.current_file,
            tokenumber: s.tokenumber + 1,
            ..s
        }
    } else {
        StateModel { word: s.word.push(c), ..s }
    }
}

/// A whole character sequence, first character first.
pub open spec fn m_scan<B: Backend>(b: B, s: StateModel, cs: Seq<char>) -> StateModel
    decreases cs.len(),
{
    if cs.len() == 0 {
        s
    } else {
        m_scan(b, m_scan_char(b, s, cs.first()), cs.drop_first())
    }
}

/// The state a compilation starts from.
pub open spec fn m_init() -> StateModel {
    StateModel {
        out: None,
        log_tokens: Seq::empty(),
        methods: Seq::empty(),
        word: Seq::empty(),
        defnstack: Seq::empty(),
        metastack: Seq::empty(),
        bodystack: seq![Seq::<char>::empty()],
        varscopes: seq![Seq::<(Seq<char>, ValueTypes)>::empty()],
        typestack: Seq::empty(),
        voidstack: Seq::empty(),
        iscomment: false,
        isstring: false,
        newstring: Seq::empty(),
        line: 1,
        tokenumber: 0,
        token_line: 1,
        token_file: "<main>"@,
        current_file: "<main>"@,
        error: None,
    }
}

/// A whole compilation: scan every character, complete the last pending word,
/// and extract the root buffer as the result.
pub open spec fn m_compile<B: Backend>(b: B, code: Seq<char>) -> StateModel {
    let s = m_flush(b, m_scan(b, m_init(), code));
    if s.error is Some {
        s
    } else {
        StateModel { out: Some(s.bodystack.first()), bodystack: s.bodystack.drop_first(), ..s }
    }
}

// ---------------------------------------------------------------------------
// Elementary facts about the interpreter
// ---------------------------------------------------------------------------
/// The population counts are never negative.
pub proof fn lemma_counts_nonneg(ds: Seq<DefinitionTypes>)
    ensures
        count_bodies(ds) >= 0,
        count_scopes(ds) >= 0,
        count_frames(ds) >= 0,
    decreases ds.len(),
{
    if ds.len() > 0 {
        lemma_counts_nonneg(ds.drop_last());
    }
}

pub broadcast proof fn lemma_count_bodies_nonneg(ds: Seq<DefinitionTypes>)
    ensures
        #[trigger] count_bodies(ds) >= 0,
    decreases ds.len(),
{
    if ds.len() > 0 {
        lemma_count_bodies_nonneg(ds.drop_last());
    }
}

pub broadcast proof fn lemma_count_scopes_nonneg(ds: Seq<DefinitionTypes>)
    ensures
        #[trigger] count_scopes(ds) >= 0,
    decreases ds.len(),
{
    if ds.len() > 0 {
        lemma_count_scopes_nonneg(ds.drop_last());
    }
}

pub broadcast proof fn lemma_count_frames_nonneg(ds: Seq<DefinitionTypes>)
    ensures
        #[trigger] count_frames(ds) >= 0,
    decreases ds.len(),
{
    if ds.len() > 0 {
        lemma_count_frames_nonneg(ds.drop_last());
    }
}

/// How the population counts react to opening one more block.
pub proof fn lemma_counts_push(ds: Seq<DefinitionTypes>, k: DefinitionTypes)
    ensures
        count_bodies(ds.push(k)) == count_bodies(ds) + if has_body(k) {
            1int
        } else {
            0int
        },
        count_scopes(ds.push(k)) == count_scopes(ds) + if has_scope(k) {
            1int
        } else {
            0int
        },
        count_frames(ds.push(k)) == count_frames(ds) + if has_frame(k) {
            1int
        } else {
            0int
        },
{
    assert(ds.push(k).drop_last() =~= ds);
}

/// Pushing another kind cannot introduce a kind that was absent.
pub proof fn lemma_contains_push(ds: Seq<DefinitionTypes>, k: DefinitionTypes, n: DefinitionTypes)
    requires
        !ds.contains(n),
        k != n,
    ensures
        !ds.push(k).contains(n),
{
    assert forall|i: int| 0 <= i < ds.push(k).len() implies ds.push(k)[i] != n by {
        if i < ds.len() {
            assert(ds[i] != n);
        }
    }
}

/// Closing a block cannot introduce a kind that was absent.
pub proof fn lemma_contains_drop(ds: Seq<DefinitionTypes>, n: DefinitionTypes)
    requires
        !ds.contains(n),
        ds.len() > 0,
    ensures
        !ds.drop_last().contains(n),
{
    assert forall|i: int| 0 <= i < ds.drop_last().len() implies ds.drop_last()[i] != n by {
        assert(ds[i] != n);
    }
}

/// Whether two states agree on everything but the token log.
pub open spec fn same_but_log(s1: StateModel, s2: StateModel) -> bool {
    s2 == (StateModel { log_tokens: s2.log_tokens, ..s1 })
}

/// Opening a block preserves the structural invariants.
pub proof fn lemma_wf_open(s: StateModel, k: DefinitionTypes)
    requires
        wf(s),
        k != DefinitionTypes::Negative,
    ensures
        wf(m_open(s, k)),
{
    lemma_counts_push(s.defnstack, k);
    lemma_contains_push(s.defnstack, k, DefinitionTypes::Negative);
}

/// Draining a frame against expectations touches only the innermost type and
/// void frames; every other field keeps its value, no frame is added or
/// removed, and on success no diagnostic is latched.
pub proof fn lemma_expect_shape(s: StateModel, expected: Seq<ValueTypes>)
    ensures
        ({
            let r = m_expect_types(s, expected);
            &&& r.methods == s.methods
            &&& r.defnstack == s.defnstack
            &&& r.metastack == s.metastack
            &&& r.bodystack == s.bodystack
            &&& r.varscopes == s.varscopes
            &&& r.word == s.word
            &&& r.log_tokens == s.log_tokens
            &&& r.out == s.out
            &&& r.iscomment == s.iscomment
            &&& r.isstring == s.isstring
            &&& r.newstring == s.newstring
            &&& r.line == s.line
            &&& r.tokenumber == s.tokenumber
            &&& r.token_line == s.token_line
            &&& r.token_file == s.token_file
            &&& r.current_file == s.current_file
            &&& r.typestack.len() == s.typestack.len()
            &&& r.voidstack.len() == s.voidstack.len()
            &&& r.error is None ==> r == (StateModel {
                typestack: r.typestack,
                voidstack: r.voidstack,
                ..s
            })
        }),
    decreases expected.len(),
{
    if !(s.error is Some || expected.len() == 0) {
        if !(s.typestack.len() == 0 || s.voidstack.len() == 0) {
            let frame = s.typestack.last();
            if frame.len() > 0 {
                if frame.last() == expected.first() {
                    lemma_expect_shape(
                        StateModel {
                            typestack: s.typestack.update(
                                s.typestack.len() - 1,
                                frame.drop_last(),
                            ),
                            ..s
                        },
                        expected.drop_first(),
                    );
                }
            } else {
                lemma_expect_shape(
                    StateModel {
                        voidstack: s.voidstack.update(
                            s.voidstack.len() - 1,
                            s.voidstack.last().push(expected.first()),
                        ),
                        ..s
                    },
                    expected.drop_first(),
                );
            }
        }
    }
}

/// Pushing produced types touches only the innermost type frame.
pub proof fn lemma_push_types_shape(s: StateModel, ts: Seq<ValueTypes>)
    ensures
        ({
            let r = m_push_types(s, ts);
            &&& r.methods == s.methods
            &&& r.defnstack == s.defnstack
            &&& r.metastack == s.metastack
            &&& r.bodystack == s.bodystack
            &&& r.varscopes == s.varscopes
            &&& r.word == s.word
            &&& r.log_tokens == s.log_tokens
            &&& r.out == s.out
            &&& r.iscomment == s.iscomment
            &&& r.isstring == s.isstring
            &&& r.newstring == s.newstring
            &&& r.line == s.line
            &&& r.tokenumber == s.tokenumber
            &&& r.token_line == s.token_line
            &&& r.token_file == s.token_file
            &&& r.current_file == s.current_file
            &&& r.typestack.len() == s.typestack.len()
            &&& r.voidstack == s.voidstack
            &&& r.error is None ==> r == (StateModel { typestack: r.typestack, ..s })
        }),
    decreases ts.len(),
{
    if !(s.error is Some || ts.len() == 0) {
        lemma_push_types_shape(m_push_type(s, ts.first()), ts.drop_first());
    }
}
/// A state carrying an error is frozen: scanning moves it nowhere.
pub proof fn lemma_scan_frozen<B: Backend>(b: B, s: StateModel, cs: Seq<char>)
    requires
        s.error is Some,
    ensures
        m_scan(b, s, cs) == s,
    decreases cs.len(),
{
    if cs.len() > 0 {
        assert(m_scan_char(b, s, cs.first()) == s);
        lemma_scan_frozen(b, s, cs.drop_first());
    }
}

/// Scanning a concatenation scans the two halves one after the other.
pub proof fn lemma_scan_append<B: Backend>(b: B, s: StateModel, xs: Seq<char>, ys: Seq<char>)
    ensures
        m_scan(b, s, xs + ys) == m_scan(b, m_scan(b, s, xs), ys),
    decreases xs.len(),
{
    if xs.len() == 0 {
        assert(xs + ys =~= ys);
    } else {
        assert((xs + ys).first() == xs.first());
        assert((xs + ys).drop_first() =~= xs.drop_first() + ys);
        lemma_scan_append(b, m_scan_char(b, s, xs.first()), xs.drop_first(), ys);
    }
}

} // verus!
