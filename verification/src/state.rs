//! The mutable aggregate carried through a compilation pass, and the small
//! tagged types it is built from.

use vstd::prelude::*;
use vstd::string::StringExecFns;

use crate::errors::{CompileError, ErrorKind, ErrorKindModel};
use crate::strutil::{dec_str, str_eq, u64_to_string};
use crate::model::{
    lookup_method, lookup_scope, lookup_vars, m_expect_types, m_init, m_no_footprint, m_pop_type,
    m_push_type, m_push_types, MethodModel, StateModel,
};

verus! {

/// The kinds of block that can be open while compiling.  `Negative` is purely
/// comparative and is never pushed onto the definition stack.
#[derive(Clone, Copy, PartialEq, Eq, Structural, Debug)]
pub enum DefinitionTypes {
    Function,
    Action,
    Linkin,
    Then,
    Elect,
    Loop,
    Variable,
    Module,
    Negative,
}

/// The static type of a value on the modelled operand stack.  `Fake` is a
/// wildcard reserved for contexts where no type information exists.
#[derive(Clone, Copy, PartialEq, Eq, Structural, Debug)]
pub enum ValueTypes {
    Number,
    Text,
    Binary,
    Fake,
}

impl DeepView for ValueTypes {
    type V = ValueTypes;

    open spec fn deep_view(&self) -> ValueTypes {
        *self
    }
}

/// Whether a registered method is a pure function or a side-effecting action.
#[derive(Clone, Copy, PartialEq, Eq, Structural, Debug)]
pub enum MethodClass {
    Function,
    Action,
}

/// A user-defined method: its compiled body and its stack effect.  `itypes`
/// are the operand types it consumes from its caller, `etypes` the types it
/// leaves behind.
#[derive(Debug)]
pub struct Method {
    pub name: String,
    pub code: String,
    pub class: MethodClass,
    pub itypes: Vec<ValueTypes>,
    pub etypes: Vec<ValueTypes>,
}

impl Method {
    /// The mathematical value of this method record.
    pub open spec fn m(self) -> MethodModel {
        MethodModel {
            name: self.name@,
            code: self.code@,
            class: self.class,
            itypes: self.itypes@,
            etypes: self.etypes@,
        }
    }
}

/// The mathematical value of a method table.
pub open spec fn methods_m(v: Vec<Method>) -> Seq<MethodModel> {
    Seq::new(v@.len(), |i: int| v@[i].m())
}

/// Whether two type vectors hold the same types in the same order.
pub fn types_eq(a: &Vec<ValueTypes>, b: &Vec<ValueTypes>) -> (r: bool)
    ensures
        r == (a@ == b@),
{
    if a.len() != b.len() {
        return false;
    }
    let mut i: usize = 0;
    while i < a.len()
        invariant
            a@.len() == b@.len(),
            i <= a@.len(),
            forall|j: int| 0 <= j < i ==> a@[j] == b@[j],
        decreases a@.len() - i,
    {
        if a[i] != b[i] {
            return false;
        }
        i += 1;
    }
    proof {
        assert(a@ =~= b@);
    }
    true
}

/// Copies a type vector.
pub fn clone_types(v: &Vec<ValueTypes>) -> (r: Vec<ValueTypes>)
    ensures
        r@ == v@,
{
    let mut r: Vec<ValueTypes> = Vec::new();
    let mut i: usize = 0;
    while i < v.len()
        invariant
            i <= v@.len(),
            r@ == v@.take(i as int),
        decreases v@.len() - i,
    {
        r.push(v[i]);
        proof {
            assert(v@.take(i + 1 as int) =~= v@.take(i as int).push(v@[i as int]));
        }
        i += 1;
    }
    proof {
        assert(v@.take(v@.len() as int) =~= v@);
    }
    r
}

/// The single mutable aggregate carried through one compilation pass.  The
/// parallel stacks are governed by the structural invariants of
/// [`crate::model::wf`]; `out` holds the compiled text once the pass is over.
#[derive(Debug)]
pub struct CompileState {
    pub out: Option<String>,
    pub log_tokens: Vec<String>,
    pub methods: Vec<Method>,
    pub word: String,
    pub defnstack: Vec<DefinitionTypes>,
    pub metastack: Vec<Vec<String>>,
    pub bodystack: Vec<String>,
    pub varscopes: Vec<Vec<(String, ValueTypes)>>,
    pub typestack: Vec<Vec<ValueTypes>>,
    pub voidstack: Vec<Vec<ValueTypes>>,
    pub iscomment: bool,
    pub isstring: bool,
    pub newstring: String,
    pub linenumber: u64,
    pub tokenumber: u64,
    pub token_line: u64,
    pub token_file: String,
    pub current_file: String,
}

impl CompileState {
    /// The mathematical value of this state.  A held state never carries an
    /// error: a fatal diagnostic is returned to the caller instead.
    pub open spec fn m(self) -> StateModel {
        StateModel {
            out: self.out.deep_view(),
            log_tokens: self.log_tokens.deep_view(),
            methods: methods_m(self.methods),
            word: self.word@,
            defnstack: self.defnstack@,
            metastack: self.metastack.deep_view(),
            bodystack: self.bodystack.deep_view(),
            varscopes: self.varscopes.deep_view(),
            typestack: self.typestack.deep_view(),
            voidstack: self.voidstack.deep_view(),
            iscomment: self.iscomment,
            isstring: self.isstring,
            newstring: self.newstring@,
            line: self.linenumber as int,
            tokenumber: self.tokenumber as int,
            token_line: self.token_line as int,
            token_file: self.token_file@,
            current_file: self.current_file@,
            error: None,
        }
    }

    /// The state a compilation starts from.
    pub fn new() -> (r: CompileState)
        ensures
            r.m() == m_init(),
    {
        let r = CompileState {
            out: None,
            log_tokens: Vec::new(),
            methods: Vec::new(),
            word: String::new(),
            defnstack: Vec::new(),
            metastack: Vec::new(),
            bodystack: vec![String::new()],
            varscopes: vec![Vec::new()],
            typestack: Vec::new(),
            voidstack: Vec::new(),
            iscomment: false,
            isstring: false,
            newstring: String::new(),
            linenumber: 1,
            tokenumber: 0,
            token_line: 1,
            token_file: "<main>".to_owned(),
            current_file: "<main>".to_owned(),
        };
        proof {
            assert(r.m() =~~= m_init());
        }
        r
    }

    /// Appends a target-text fragment to the innermost code buffer.
    pub fn add2body(&mut self, s: &str)
        requires
            old(self).m().bodystack.len() > 0,
        ensures
            final(self).m() == crate::model::emit(old(self).m(), s@),
            final(self).linenumber == old(self).linenumber,
            final(self).tokenumber == old(self).tokenumber,
            final(self).token_line == old(self).token_line,
            final(self).token_file == old(self).token_file,
    {
        let mut top = self.bodystack.pop().unwrap();
        top.append(s);
        self.bodystack.push(top);
        proof {
            assert(final(self).m() =~~= crate::model::emit(old(self).m(), s@));
        }
    }

    /// Pushes one type onto the innermost operand frame.
    pub fn push_type(&mut self, t: ValueTypes)
        requires
            old(self).m().typestack.len() > 0,
        ensures
            final(self).m() == m_push_type(old(self).m(), t),
            final(self).linenumber == old(self).linenumber,
            final(self).tokenumber == old(self).tokenumber,
            final(self).token_line == old(self).token_line,
            final(self).token_file == old(self).token_file,
    {
        let mut frame = self.typestack.pop().unwrap();
        frame.push(t);
        self.typestack.push(frame);
        proof {
            assert(final(self).m() =~~= m_push_type(old(self).m(), t));
        }
    }

    /// Pushes a whole sequence of types, first element first.
    pub fn push_types(&mut self, t: &[ValueTypes])
        requires
            old(self).m().typestack.len() > 0,
        ensures
            final(self).m() == m_push_types(old(self).m(), t@),
            final(self).linenumber == old(self).linenumber,
            final(self).tokenumber == old(self).tokenumber,
            final(self).token_line == old(self).token_line,
            final(self).token_file == old(self).token_file,
    {
        let ghost s0 = self.m();
        proof {
            assert(t@.skip(0int) =~= t@);
        }
        let mut i: usize = 0;
        while i < t.len()
            invariant
                i <= t@.len(),
                self.m().typestack.len() > 0,
                m_push_types(s0, t@) == m_push_types(self.m(), t@.skip(i as int)),
                self.linenumber == old(self).linenumber,
                self.tokenumber == old(self).tokenumber,
                self.token_line == old(self).token_line,
                self.token_file == old(self).token_file,
            decreases t@.len() - i,
        {
            let ghost cur = self.m();
            self.push_type(t[i]);
            proof {
                assert(t@.skip(i as int).first() == t@[i as int]);
                assert(t@.skip(i as int).drop_first() =~= t@.skip(i + 1 as int));
                assert(m_push_types(cur, t@.skip(i as int)) == m_push_types(
                    self.m(),
                    t@.skip(i + 1 as int),
                ));
            }
            i += 1;
        }
        proof {
            assert(t@.skip(t@.len() as int) =~= Seq::<ValueTypes>::empty());
        }
    }

    /// Pops the top of the innermost operand frame.
    pub fn pop_type(&mut self) -> (r: ValueTypes)
        requires
            old(self).m().typestack.len() > 0,
            old(self).m().typestack.last().len() > 0,
        ensures
            final(self).m() == m_pop_type(old(self).m()).0,
            r == m_pop_type(old(self).m()).1,
            final(self).linenumber == old(self).linenumber,
            final(self).tokenumber == old(self).tokenumber,
            final(self).token_line == old(self).token_line,
            final(self).token_file == old(self).token_file,
    {
        let mut frame = self.typestack.pop().unwrap();
        let t = frame.pop().unwrap();
        self.typestack.push(frame);
        proof {
            assert(final(self).m() =~~= m_pop_type(old(self).m()).0);
        }
        t
    }

    /// Raises a fatal diagnostic at the position where the current token
    /// began.
    pub fn throw_error(&self, kind: ErrorKind) -> (r: CompileError)
        ensures
            crate::model::set_error(self.m(), kind.m()).error == Some(r.m()),
    {
        CompileError {
            file: self.token_file.clone(),
            line: self.token_line,
            word: self.tokenumber,
            kind: kind,
        }
    }

    /// The text a warning would be reported with, at the position where the
    /// current token began.  Warnings do not abort; printing one is the
    /// caller's business.
    pub fn warning_message(&self, msg: &str) -> (r: String)
        ensures
            r@ == "[DRYFT WARNING] "@ + self.m().token_file + ":"@ + dec_str(self.m().token_line)
                + ", word "@ + dec_str(self.m().tokenumber) + ": "@ + msg@,
    {
        let mut s = String::new();
        s.append("[DRYFT WARNING] ");
        s.append(self.token_file.as_str());
        s.append(":");
        let line_str = u64_to_string(self.token_line);
        s.append(line_str.as_str());
        s.append(", word ");
        let word_str = u64_to_string(self.tokenumber);
        s.append(word_str.as_str());
        s.append(": ");
        s.append(msg);
        proof {
            assert(s@ =~= "[DRYFT WARNING] "@ + self.m().token_file + ":"@ + dec_str(
                self.m().token_line,
            ) + ", word "@ + dec_str(self.m().tokenumber) + ": "@ + msg@);
        }
        s
    }

    /// Drains the innermost frame against a sequence of expected types: a
    /// mismatch is fatal, and a demand the frame cannot meet is recorded into
    /// the parallel void frame as a required input of the enclosing block.
    pub fn expect_types(&mut self, expected: &[ValueTypes]) -> (r: Result<(), CompileError>)
        ensures
            match r {
                Ok(()) => {
                    &&& final(self).m() == m_expect_types(old(self).m(), expected@)
                    &&& m_expect_types(old(self).m(), expected@).error is None
                    &&& final(self).linenumber == old(self).linenumber
                    &&& final(self).tokenumber == old(self).tokenumber
                    &&& final(self).token_line == old(self).token_line
                    &&& final(self).token_file == old(self).token_file
                },
                Err(e) => m_expect_types(old(self).m(), expected@).error == Some(e.m()),
            },
    {
        let ghost s0 = self.m();
        if expected.len() > 0 && (self.typestack.is_empty() || self.voidstack.is_empty()) {
            return Err(self.throw_error(ErrorKind::StackUnderflow));
        }
        proof {
            assert(expected@.skip(0int) =~= expected@);
        }
        let mut i: usize = 0;
        while i < expected.len()
            invariant
                s0 == old(self).m(),
                i <= expected@.len(),
                i < expected@.len() ==> self.m().typestack.len() > 0 && self.m().voidstack.len()
                    > 0,
                m_expect_types(s0, expected@) == m_expect_types(
                    self.m(),
                    expected@.skip(i as int),
                ),
                self.linenumber == old(self).linenumber,
                self.tokenumber == old(self).tokenumber,
                self.token_line == old(self).token_line,
                self.token_file == old(self).token_file,
            decreases expected@.len() - i,
        {
            let ghost cur = self.m();
            proof {
                assert(expected@.skip(i as int).first() == expected@[i as int]);
                assert(expected@.skip(i as int).drop_first() =~= expected@.skip(i + 1 as int));
            }
            let ex = expected[i];
            let mut frame = self.typestack.pop().unwrap();
            let ghost fr0 = frame@;
            proof {
                assert(cur.typestack.last() =~= fr0);
            }
            if frame.len() > 0 {
                let found = frame.pop().unwrap();
                if found != ex {
                    self.typestack.push(frame);
                    let e = self.throw_error(ErrorKind::TypeMismatch(ex, found));
                    proof {
                        assert(m_expect_types(cur, expected@.skip(i as int)) == crate::model::set_error(
                            cur,
                            ErrorKindModel::TypeMismatch(ex, found),
                        ));
                        assert(ErrorKind::TypeMismatch(ex, found).m()
                            == ErrorKindModel::TypeMismatch(ex, found));
                        assert(crate::model::set_error(cur, ErrorKindModel::TypeMismatch(ex, found)).error
                            == Some(e.m()));
                        assert(m_expect_types(s0, expected@).error == Some(e.m()));
                    }
                    return Err(e);
                }
                self.typestack.push(frame);
                proof {
                    assert(self.m() =~~= StateModel {
                        typestack: cur.typestack.update(
                            cur.typestack.len() - 1,
                            cur.typestack.last().drop_last(),
                        ),
                        ..cur
                    });
                }
            } else {
                self.typestack.push(frame);
                let mut vf = self.voidstack.pop().unwrap();
                vf.push(ex);
                self.voidstack.push(vf);
                proof {
                    assert(self.m() =~~= StateModel {
                        voidstack: cur.voidstack.update(
                            cur.voidstack.len() - 1,
                            cur.voidstack.last().push(ex),
                        ),
                        ..cur
                    });
                }
            }
            i += 1;
        }
        proof {
            assert(expected@.skip(expected@.len() as int) =~= Seq::<ValueTypes>::empty());
        }
        Ok(())
    }

    /// Closes the innermost type and void frames against each other: the
    /// types a block leaves behind must equal the inputs it demanded; the
    /// demand is then re-raised in the enclosing frame.
    pub fn expect_no_type_footprint(&mut self) -> (r: Result<(), CompileError>)
        ensures
            match r {
                Ok(()) => final(self).m() == m_no_footprint(old(self).m()) && m_no_footprint(
                    old(self).m(),
                ).error is None,
                Err(e) => m_no_footprint(old(self).m()).error == Some(e.m()),
            },
    {
        if self.typestack.is_empty() || self.voidstack.is_empty() {
            return Err(self.throw_error(ErrorKind::StackUnderflow));
        }
        let ghost s0 = self.m();
        let ret = self.typestack.pop().unwrap();
        let void = self.voidstack.pop().unwrap();
        proof {
            assert(ret.deep_view() =~= ret@);
            assert(void.deep_view() =~= void@);
            assert(s0.typestack.last() == ret@);
            assert(s0.voidstack.last() == void@);
        }
        if !types_eq(&void, &ret) {
            return Err(self.throw_error(ErrorKind::FootprintMismatch(ret, void)));
        }
        let ghost s1 = self.m();
        proof {
            assert(s1 =~~= StateModel {
                typestack: s0.typestack.drop_last(),
                voidstack: s0.voidstack.drop_last(),
                ..s0
            });
        }
        self.expect_types(void.as_slice())
    }

    /// Whether a reference to an action is legal here: actions may not be
    /// called from anywhere inside a function.
    pub fn before_action(&self) -> (ok: bool)
        ensures
            ok == !self.m().defnstack.contains(DefinitionTypes::Function),
    {
        let mut i: usize = 0;
        while i < self.defnstack.len()
            invariant
                i <= self.defnstack@.len(),
                forall|j: int| 0 <= j < i ==> self.defnstack@[j] != DefinitionTypes::Function,
            decreases self.defnstack@.len() - i,
        {
            if self.defnstack[i] == DefinitionTypes::Function {
                proof {
                    assert(self.m().defnstack[i as int] == DefinitionTypes::Function);
                }
                return false;
            }
            i += 1;
        }
        true
    }

    /// Looks a variable up, walking the scopes from innermost to outermost.
    pub fn variable_in_scope(&self, vname: &str) -> (r: Option<ValueTypes>)
        ensures
            r == lookup_vars(self.m().varscopes, vname@),
    {
        let ghost scopes = self.m().varscopes;
        let mut k: usize = self.varscopes.len();
        proof {
            assert(scopes.take(k as int) =~= scopes);
        }
        while k > 0
            invariant
                k <= self.varscopes@.len(),
                scopes == self.m().varscopes,
                lookup_vars(scopes, vname@) == lookup_vars(scopes.take(k as int), vname@),
            decreases k,
        {
            let sc = &self.varscopes[k - 1];
            let ghost scd = scopes[k - 1 as int];
            proof {
                assert(scd =~= sc.deep_view());
            }
            proof {
                assert(scd.skip(0int) =~= scd);
            }
            let mut j: usize = 0;
            while j < sc.len()
                invariant
                    k <= self.varscopes@.len(),
                    k > 0,
                    scopes == self.m().varscopes,
                    lookup_vars(scopes, vname@) == lookup_vars(scopes.take(k as int), vname@),
                    j <= sc@.len(),
                    sc == &self.varscopes[k - 1 as int],
                    scd == scopes[k - 1 as int],
                    scd == sc.deep_view(),
                    lookup_scope(scd, vname@) == lookup_scope(scd.skip(j as int), vname@),
                decreases sc@.len() - j,
            {
                proof {
                    assert(scd.skip(j as int).first() == scd[j as int]);
                    assert(scd[j as int] == (sc@[j as int].0@, sc@[j as int].1));
                    assert(scd.skip(j as int).drop_first() =~= scd.skip(j + 1 as int));
                }
                let e = &sc[j];
                if str_eq(e.0.as_str(), vname) {
                    proof {
                        assert(lookup_scope(scd, vname@) == Some(e.1));
                        assert(scopes.take(k as int).last() == scd);
                        assert(lookup_vars(scopes.take(k as int), vname@) == Some(e.1));
                    }
                    return Some(e.1);
                }
                j += 1;
            }
            proof {
                assert(scd.skip(sc@.len() as int) =~= Seq::<(Seq<char>, ValueTypes)>::empty());
                assert(lookup_scope(scd, vname@) is None);
                assert(scopes.take(k as int).last() == scd);
                assert(scopes.take(k as int).drop_last() =~= scopes.take(k - 1 as int));
            }
            k -= 1;
        }
        proof {
            assert(scopes.take(0int) =~= Seq::<Seq<(Seq<char>, ValueTypes)>>::empty());
        }
        None
    }

    /// Opens a fresh code buffer for a block that owns one.
    pub fn grow_bodystack(&mut self)
        ensures
            final(self).m() == (StateModel {
                bodystack: old(self).m().bodystack.push(Seq::empty()),
                ..old(self).m()
            }),
    {
        self.bodystack.push(String::new());
        proof {
            assert(final(self).m() =~~= (StateModel {
                bodystack: old(self).m().bodystack.push(Seq::empty()),
                ..old(self).m()
            }));
        }
    }

    /// Opens a fresh variable scope.
    pub fn grow_varscopes(&mut self)
        ensures
            final(self).m() == (StateModel {
                varscopes: old(self).m().varscopes.push(Seq::empty()),
                ..old(self).m()
            }),
    {
        self.varscopes.push(Vec::new());
        proof {
            assert(final(self).m() =~~= (StateModel {
                varscopes: old(self).m().varscopes.push(Seq::empty()),
                ..old(self).m()
            }));
        }
    }

    /// Opens a fresh metadata slot.
    pub fn grow_metastack(&mut self)
        ensures
            final(self).m() == (StateModel {
                metastack: old(self).m().metastack.push(Seq::empty()),
                ..old(self).m()
            }),
    {
        self.metastack.push(Vec::new());
        proof {
            assert(final(self).m() =~~= (StateModel {
                metastack: old(self).m().metastack.push(Seq::empty()),
                ..old(self).m()
            }));
        }
    }

    /// Opens a fresh operand type frame.
    pub fn grow_typestack(&mut self)
        ensures
            final(self).m() == (StateModel {
                typestack: old(self).m().typestack.push(Seq::empty()),
                ..old(self).m()
            }),
    {
        self.typestack.push(Vec::new());
        proof {
            assert(final(self).m() =~~= (StateModel {
                typestack: old(self).m().typestack.push(Seq::empty()),
                ..old(self).m()
            }));
        }
    }

    /// Opens a fresh void frame of deferred input demands.
    pub fn grow_voidstack(&mut self)
        ensures
            final(self).m() == (StateModel {
                voidstack: old(self).m().voidstack.push(Seq::empty()),
                ..old(self).m()
            }),
    {
        self.voidstack.push(Vec::new());
        proof {
            assert(final(self).m() =~~= (StateModel {
                voidstack: old(self).m().voidstack.push(Seq::empty()),
                ..old(self).m()
            }));
        }
    }
}

} // verus!
