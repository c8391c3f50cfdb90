//! Fatal compilation diagnostics.  Every failure the compiler can detect is a
//! structured error carrying the position where the offending token began;
//! `message` renders it in the fixed `[DRYFT ERROR] file:line, word n: text`
//! shape.

use vstd::prelude::*;
use vstd::string::StringExecFns;

use crate::state::{DefinitionTypes, ValueTypes};
use crate::strutil::{dec_str, u64_to_string};

verus! {

/// What went wrong, in executable form.
#[derive(Debug)]
pub enum ErrorKind {
    TypeMismatch(ValueTypes, ValueTypes),
    UnknownToken(String),
    MisplacedEnding(DefinitionTypes),
    NoBlockToEnd,
    MisplacedSemicolon,
    NoName,
    MainAsFunction,
    DuplicateSymbol(String),
    ActionInFunction,
    UndefinedVariable(String),
    InvalidLinkinClass(String),
    StackUnderflow,
    FootprintMismatch(Vec<ValueTypes>, Vec<ValueTypes>),
}

/// What went wrong, in mathematical form.
#[verifier::ext_equal]
pub ghost enum ErrorKindModel {
    TypeMismatch(ValueTypes, ValueTypes),
    UnknownToken(Seq<char>),
    MisplacedEnding(DefinitionTypes),
    NoBlockToEnd,
    MisplacedSemicolon,
    NoName,
    MainAsFunction,
    DuplicateSymbol(Seq<char>),
    ActionInFunction,
    UndefinedVariable(Seq<char>),
    InvalidLinkinClass(Seq<char>),
    StackUnderflow,
    FootprintMismatch(Seq<ValueTypes>, Seq<ValueTypes>),
}

impl ErrorKind {
    /// The mathematical value of this error kind.
    pub open spec fn m(self) -> ErrorKindModel {
        match self {
            ErrorKind::TypeMismatch(e, f) => ErrorKindModel::TypeMismatch(e, f),
            ErrorKind::UnknownToken(w) => ErrorKindModel::UnknownToken(w@),
            ErrorKind::MisplacedEnding(k) => ErrorKindModel::MisplacedEnding(k),
            ErrorKind::NoBlockToEnd => ErrorKindModel::NoBlockToEnd,
            ErrorKind::MisplacedSemicolon => ErrorKindModel::MisplacedSemicolon,
            ErrorKind::NoName => ErrorKindModel::NoName,
            ErrorKind::MainAsFunction => ErrorKindModel::MainAsFunction,
            ErrorKind::DuplicateSymbol(n) => ErrorKindModel::DuplicateSymbol(n@),
            ErrorKind::ActionInFunction => ErrorKindModel::ActionInFunction,
            ErrorKind::UndefinedVariable(n) => ErrorKindModel::UndefinedVariable(n@),
            ErrorKind::InvalidLinkinClass(c) => ErrorKindModel::InvalidLinkinClass(c@),
            ErrorKind::StackUnderflow => ErrorKindModel::StackUnderflow,
            ErrorKind::FootprintMismatch(r, v) => ErrorKindModel::FootprintMismatch(r@, v@),
        }
    }
}

/// A fatal diagnostic together with the source position of the token that
/// caused it, in mathematical form.
#[verifier::ext_equal]
pub ghost struct ErrorModel {
    pub file: Seq<char>,
    pub line: int,
    pub word: int,
    pub kind: ErrorKindModel,
}

/// A fatal diagnostic together with the source position of the token that
/// caused it.
#[derive(Debug)]
pub struct CompileError {
    pub file: String,
    pub line: u64,
    pub word: u64,
    pub kind: ErrorKind,
}

/// The name under which a value type is reported.
pub open spec fn vt_name(t: ValueTypes) -> Seq<char> {
    match t {
        ValueTypes::Number => "Number"@,
        ValueTypes::Text => "Text"@,
        ValueTypes::Binary => "Binary"@,
        ValueTypes::Fake => "Fake"@,
    }
}

/// The name under which a definition kind is reported.
pub open spec fn dt_name(k: DefinitionTypes) -> Seq<char> {
    match k {
        DefinitionTypes::Function => "Function"@,
        DefinitionTypes::Action => "Action"@,
        DefinitionTypes::Linkin => "Linkin"@,
        DefinitionTypes::Then => "Then"@,
        DefinitionTypes::Elect => "Elect"@,
        DefinitionTypes::Loop => "Loop"@,
        DefinitionTypes::Variable => "Variable"@,
        DefinitionTypes::Module => "Module"@,
        DefinitionTypes::Negative => "Negative"@,
    }
}

/// The names of a type sequence, joined with commas.
pub open spec fn vt_names_joined(ts: Seq<ValueTypes>) -> Seq<char>
    decreases ts.len(),
{
    if ts.len() == 0 {
        Seq::empty()
    } else if ts.len() == 1 {
        vt_name(ts.last())
    } else {
        vt_names_joined(ts.drop_last()) + ", "@ + vt_name(ts.last())
    }
}

/// A type sequence written as a bracketed list, the way the block-exit
/// diagnostic reports the returned and consumed types.
pub open spec fn vt_list(ts: Seq<ValueTypes>) -> Seq<char> {
    "["@ + vt_names_joined(ts) + "]"@
}

/// The message text belonging to an error kind.
pub open spec fn kind_message_spec(k: ErrorKindModel) -> Seq<char> {
    match k {
        ErrorKindModel::TypeMismatch(e, f) => "Type mismatch : Expected "@ + vt_name(e)
            + ", found "@ + vt_name(f),
        ErrorKindModel::UnknownToken(w) => "Unknown token '"@ + w + "'"@,
        ErrorKindModel::MisplacedEnding(k) => "Misplaced "@ + dt_name(k) + " block ending"@,
        ErrorKindModel::NoBlockToEnd => "No block to end"@,
        ErrorKindModel::MisplacedSemicolon => "Misplaced ;"@,
        ErrorKindModel::NoName => "No function name provided"@,
        ErrorKindModel::MainAsFunction => "main must be defined as an action"@,
        ErrorKindModel::DuplicateSymbol(n) => "Symbol "@ + n + " is already defined"@,
        ErrorKindModel::ActionInFunction => "Can not call actions from inside a function"@,
        ErrorKindModel::UndefinedVariable(n) => "Undefined variable "@ + n,
        ErrorKindModel::InvalidLinkinClass(c) => "Invalid link-in class "@ + c,
        ErrorKindModel::StackUnderflow => "Type stack underflow"@,
        ErrorKindModel::FootprintMismatch(r, v) => "Block returns "@ + vt_list(r)
            + ", but consumes "@ + vt_list(v),
    }
}

/// The full rendered diagnostic.
pub open spec fn error_message_spec(e: ErrorModel) -> Seq<char> {
    "[DRYFT ERROR] "@ + e.file + ":"@ + dec_str(e.line) + ", word "@ + dec_str(e.word) + ": "@
        + kind_message_spec(e.kind)
}

/// Executable form of `vt_name`.
pub fn value_type_name(t: ValueTypes) -> (r: &'static str)
    ensures
        r@ == vt_name(t),
{
    match t {
        ValueTypes::Number => "Number",
        ValueTypes::Text => "Text",
        ValueTypes::Binary => "Binary",
        ValueTypes::Fake => "Fake",
    }
}

/// Executable form of `dt_name`.
pub fn definition_type_name(k: DefinitionTypes) -> (r: &'static str)
    ensures
        r@ == dt_name(k),
{
    match k {
        DefinitionTypes::Function => "Function",
        DefinitionTypes::Action => "Action",
        DefinitionTypes::Linkin => "Linkin",
        DefinitionTypes::Then => "Then",
        DefinitionTypes::Elect => "Elect",
        DefinitionTypes::Loop => "Loop",
        DefinitionTypes::Variable => "Variable",
        DefinitionTypes::Module => "Module",
        DefinitionTypes::Negative => "Negative",
    }
}

/// Executable form of `vt_list`.
pub fn value_type_list(ts: &Vec<ValueTypes>) -> (r: String)
    ensures
        r@ == vt_list(ts@),
{
    let mut s = String::new();
    s.append("[");
    proof {
        assert(ts@.take(0int) =~= Seq::<ValueTypes>::empty());
        assert(s@ =~= "["@ + vt_names_joined(ts@.take(0int)));
    }
    let mut i: usize = 0;
    while i < ts.len()
        invariant
            i <= ts@.len(),
            s@ == "["@ + vt_names_joined(ts@.take(i as int)),
        decreases ts@.len() - i,
    {
        if i > 0 {
            s.append(", ");
        }
        let name = value_type_name(ts[i]);
        s.append(name);
        proof {
            assert(ts@.take(i + 1 as int).drop_last() =~= ts@.take(i as int));
            assert(ts@.take(i + 1 as int).last() == ts@[i as int]);
            if i == 0 {
                assert(s@ =~= "["@ + vt_names_joined(ts@.take(1int)));
            } else {
                assert(vt_names_joined(ts@.take(i + 1 as int)) == vt_names_joined(
                    ts@.take(i as int),
                ) + ", "@ + vt_name(ts@[i as int]));
                assert(s@ =~= "["@ + vt_names_joined(ts@.take(i + 1 as int)));
            }
        }
        i += 1;
    }
    s.append("]");
    proof {
        assert(ts@.take(ts@.len() as int) =~= ts@);
        assert(s@ =~= vt_list(ts@));
    }
    s
}

impl CompileError {
    /// The mathematical value of this diagnostic.
    pub open spec fn m(self) -> ErrorModel {
        ErrorModel {
            file: self.file@,
            line: self.line as int,
            word: self.word as int,
            kind: self.kind.m(),
        }
    }

    /// Renders the message belonging to the error kind alone.
    pub fn kind_message(&self) -> (r: String)
        ensures
            r@ == kind_message_spec(self.kind.m()),
    {
        match &self.kind {
            ErrorKind::TypeMismatch(e, f) => {
                let mut s = String::new();
                s.append("Type mismatch : Expected ");
                s.append(value_type_name(*e));
                s.append(", found ");
                s.append(value_type_name(*f));
                proof {
                    assert(s@ =~= kind_message_spec(self.kind.m()));
                }
                s
            },
            ErrorKind::UnknownToken(w) => {
                let mut s = String::new();
                s.append("Unknown token '");
                s.append(w.as_str());
                s.append("'");
                proof {
                    assert(s@ =~= kind_message_spec(self.kind.m()));
                }
                s
            },
            ErrorKind::MisplacedEnding(k) => {
                let mut s = String::new();
                s.append("Misplaced ");
                s.append(definition_type_name(*k));
                s.append(" block ending");
                proof {
                    assert(s@ =~= kind_message_spec(self.kind.m()));
                }
                s
            },
            ErrorKind::NoBlockToEnd => {
                let mut s = String::new();
                s.append("No block to end");
                proof {
                    assert(s@ =~= kind_message_spec(self.kind.m()));
                }
                s
            },
            ErrorKind::MisplacedSemicolon => {
                let mut s = String::new();
                s.append("Misplaced ;");
                proof {
                    assert(s@ =~= kind_message_spec(self.kind.m()));
                }
                s
            },
            ErrorKind::NoName => {
                let mut s = String::new();
                s.append("No function name provided");
                proof {
                    assert(s@ =~= kind_message_spec(self.kind.m()));
                }
                s
            },
            ErrorKind::MainAsFunction => {
                let mut s = String::new();
                s.append("main must be defined as an action");
                proof {
                    assert(s@ =~= kind_message_spec(self.kind.m()));
                }
                s
            },
            ErrorKind::DuplicateSymbol(n) => {
                let mut s = String::new();
                s.append("Symbol ");
                s.append(n.as_str());
                s.append(" is already defined");
                proof {
                    assert(s@ =~= kind_message_spec(self.kind.m()));
                }
                s
            },
            ErrorKind::ActionInFunction => {
                let mut s = String::new();
                s.append("Can not call actions from inside a function");
                proof {
                    assert(s@ =~= kind_message_spec(self.kind.m()));
                }
                s
            },
            ErrorKind::UndefinedVariable(n) => {
                let mut s = String::new();
                s.append("Undefined variable ");
                s.append(n.as_str());
                proof {
                    assert(s@ =~= kind_message_spec(self.kind.m()));
                }
                s
            },
            ErrorKind::InvalidLinkinClass(c) => {
                let mut s = String::new();
                s.append("Invalid link-in class ");
                s.append(c.as_str());
                proof {
                    assert(s@ =~= kind_message_spec(self.kind.m()));
                }
                s
            },
            ErrorKind::StackUnderflow => {
                let mut s = String::new();
                s.append("Type stack underflow");
                proof {
                    assert(s@ =~= kind_message_spec(self.kind.m()));
                }
                s
            },
            ErrorKind::FootprintMismatch(r0, v0) => {
                let mut s = String::new();
                s.append("Block returns ");
                let rl = value_type_list(r0);
                s.append(rl.as_str());
                s.append(", but consumes ");
                let vl = value_type_list(v0);
                s.append(vl.as_str());
                proof {
                    assert(s@ =~= kind_message_spec(self.kind.m()));
                }
                s
            },
        }
    }

    /// Renders the full diagnostic in the fixed reporting shape.
    pub fn message(&self) -> (r: String)
        ensures
            r@ == error_message_spec(self.m()),
    {
        let mut s = String::new();
        s.append("[DRYFT ERROR] ");
        s.append(self.file.as_str());
        s.append(":");
        let line_str = u64_to_string(self.line);
        s.append(line_str.as_str());
        s.append(", word ");
        let word_str = u64_to_string(self.word);
        s.append(word_str.as_str());
        s.append(": ");
        let km = self.kind_message();
        s.append(km.as_str());
        proof {
            assert(s@ =~= error_message_spec(self.m()));
        }
        s
    }
}

} // verus!
