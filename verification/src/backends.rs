//! The backend capability set: every operation through which the compiler
//! emits target-language text, and the backends that implement it.

use vstd::prelude::*;

use crate::strutil::str_eq;

pub mod c99;
pub mod nasm64;

pub use c99::C99Backend;
pub use nasm64::Nasm64Backend;

verus! {

/// A code-producing backend.  Each emitting operation comes in two forms: a
/// specification function giving the emitted text as a value, and the
/// executable operation proved to return exactly that text.  The compiler's
/// own contracts are stated over the specification functions, so they hold
/// for every backend satisfying this interface.
pub trait Backend: Sized {
    /// Text of the complete program wrapping an already compiled body.
    spec fn s_complete(&self, compiled: Seq<char>) -> Seq<char>;

    /// Definition of a named, nullary target routine.
    spec fn s_create_function(&self, fname: Seq<char>, body: Seq<char>) -> Seq<char>;

    /// Push of an integer literal.
    spec fn s_push_integer(&self, i: Seq<char>) -> Seq<char>;

    /// Push of a string literal.
    spec fn s_push_string(&self, s: Seq<char>) -> Seq<char>;

    /// Call of a user-defined routine.
    spec fn s_user_function(&self, f: Seq<char>) -> Seq<char>;

    /// Trampoline to an externally linked routine.
    spec fn s_linkin_function(&self, name: Seq<char>) -> Seq<char>;

    spec fn s_fun_add(&self) -> Seq<char>;

    spec fn s_fun_sub(&self) -> Seq<char>;

    spec fn s_fun_mul(&self) -> Seq<char>;

    spec fn s_fun_div(&self) -> Seq<char>;

    spec fn s_fun_mod(&self) -> Seq<char>;

    spec fn s_fun_simple_equality(&self) -> Seq<char>;

    spec fn s_fun_simple_non_equality(&self) -> Seq<char>;

    spec fn s_fun_copy(&self) -> Seq<char>;

    spec fn s_fun_drop(&self) -> Seq<char>;

    spec fn s_fun_swap(&self) -> Seq<char>;

    spec fn s_fun_logical_not(&self) -> Seq<char>;

    spec fn s_fun_logical_and(&self) -> Seq<char>;

    spec fn s_fun_logical_or(&self) -> Seq<char>;

    spec fn s_fun_num_greater(&self) -> Seq<char>;

    spec fn s_fun_num_greater_or_equal(&self) -> Seq<char>;

    spec fn s_fun_num_less_than(&self) -> Seq<char>;

    spec fn s_fun_num_less_than_or_equal(&self) -> Seq<char>;

    /// Guarded block reading the run-time stack top as its condition.
    spec fn s_create_then_condition(&self, body: Seq<char>) -> Seq<char>;

    /// Block gated on the previous guard not having been taken.
    spec fn s_create_else_condition(&self, body: Seq<char>) -> Seq<char>;

    /// Wrapper around a sequence of guarded arms with fall-through semantics.
    spec fn s_create_elect_block(&self, body: Seq<char>) -> Seq<char>;

    /// Unconditional block broken only by a nested break.
    spec fn s_create_loop_block(&self, body: Seq<char>) -> Seq<char>;

    spec fn s_loop_break(&self) -> Seq<char>;

    spec fn s_method_return(&self) -> Seq<char>;

    spec fn s_create_variable(&self, name: Seq<char>) -> Seq<char>;

    spec fn s_read_variable(&self, name: Seq<char>) -> Seq<char>;

    spec fn s_write_variable(&self, name: Seq<char>) -> Seq<char>;

    fn complete(&self, compiled: &str) -> (r: String)
        ensures
            r@ == self.s_complete(compiled@),
    ;

    fn create_function(&self, fname: &str, body: String) -> (r: String)
        ensures
            r@ == self.s_create_function(fname@, body@),
    ;

    fn push_integer(&self, i: &str) -> (r: String)
        ensures
            r@ == self.s_push_integer(i@),
    ;

    fn push_string(&self, s: &str) -> (r: String)
        ensures
            r@ == self.s_push_string(s@),
    ;

    fn user_function(&self, f: &str) -> (r: String)
        ensures
            r@ == self.s_user_function(f@),
    ;

    fn linkin_function(&self, name: &str) -> (r: String)
        ensures
            r@ == self.s_linkin_function(name@),
    ;

    fn fun_add(&self) -> (r: &'static str)
        ensures
            r@ == self.s_fun_add(),
    ;

    fn fun_sub(&self) -> (r: &'static str)
        ensures
            r@ == self.s_fun_sub(),
    ;

    fn fun_mul(&self) -> (r: &'static str)
        ensures
            r@ == self.s_fun_mul(),
    ;

    fn fun_div(&self) -> (r: &'static str)
        ensures
            r@ == self.s_fun_div(),
    ;

    fn fun_mod(&self) -> (r: &'static str)
        ensures
            r@ == self.s_fun_mod(),
    ;

    fn fun_simple_equality(&self) -> (r: &'static str)
        ensures
            r@ == self.s_fun_simple_equality(),
    ;

    fn fun_simple_non_equality(&self) -> (r: &'static str)
        ensures
            r@ == self.s_fun_simple_non_equality(),
    ;

    fn fun_copy(&self) -> (r: &'static str)
        ensures
            r@ == self.s_fun_copy(),
    ;

    fn fun_drop(&self) -> (r: &'static str)
        ensures
            r@ == self.s_fun_drop(),
    ;

    fn fun_swap(&self) -> (r: &'static str)
        ensures
            r@ == self.s_fun_swap(),
    ;

    fn fun_logical_not(&self) -> (r: &'static str)
        ensures
            r@ == self.s_fun_logical_not(),
    ;

    fn fun_logical_and(&self) -> (r: &'static str)
        ensures
            r@ == self.s_fun_logical_and(),
    ;

    fn fun_logical_or(&self) -> (r: &'static str)
        ensures
            r@ == self.s_fun_logical_or(),
    ;

    fn fun_num_greater(&self) -> (r: &'static str)
        ensures
            r@ == self.s_fun_num_greater(),
    ;

    fn fun_num_greater_or_equal(&self) -> (r: &'static str)
        ensures
            r@ == self.s_fun_num_greater_or_equal(),
    ;

    fn fun_num_less_than(&self) -> (r: &'static str)
        ensures
            r@ == self.s_fun_num_less_than(),
    ;

    fn fun_num_less_than_or_equal(&self) -> (r: &'static str)
        ensures
            r@ == self.s_fun_num_less_than_or_equal(),
    ;

    fn create_then_condition(&self, body: String) -> (r: String)
        ensures
            r@ == self.s_create_then_condition(body@),
    ;

    fn create_else_condition(&self, body: String) -> (r: String)
        ensures
            r@ == self.s_create_else_condition(body@),
    ;

    fn create_elect_block(&self, body: String) -> (r: String)
        ensures
            r@ == self.s_create_elect_block(body@),
    ;

    fn create_loop_block(&self, body: String) -> (r: String)
        ensures
            r@ == self.s_create_loop_block(body@),
    ;

    fn loop_break(&self) -> (r: &'static str)
        ensures
            r@ == self.s_loop_break(),
    ;

    fn method_return(&self) -> (r: &'static str)
        ensures
            r@ == self.s_method_return(),
    ;

    fn create_variable(&self, name: &str) -> (r: String)
        ensures
            r@ == self.s_create_variable(name@),
    ;

    fn read_variable(&self, name: &str) -> (r: String)
        ensures
            r@ == self.s_read_variable(name@),
    ;

    fn write_variable(&self, name: &str) -> (r: String)
        ensures
            r@ == self.s_write_variable(name@),
    ;
}

/// A backend that emits nothing; used to exercise the front-end alone.
pub struct MockBackend {}

impl Backend for MockBackend {
    open spec fn s_complete(&self, compiled: Seq<char>) -> Seq<char> {
        compiled
    }

    open spec fn s_create_function(&self, fname: Seq<char>, body: Seq<char>) -> Seq<char> {
        Seq::empty()
    }

    open spec fn s_push_integer(&self, i: Seq<char>) -> Seq<char> {
        Seq::empty()
    }

    open spec fn s_push_string(&self, s: Seq<char>) -> Seq<char> {
        Seq::empty()
    }

    open spec fn s_user_function(&self, f: Seq<char>) -> Seq<char> {
        Seq::empty()
    }

    open spec fn s_linkin_function(&self, name: Seq<char>) -> Seq<char> {
        Seq::empty()
    }

    open spec fn s_fun_add(&self) -> Seq<char> {
        ""@
    }

    open spec fn s_fun_sub(&self) -> Seq<char> {
        ""@
    }

    open spec fn s_fun_mul(&self) -> Seq<char> {
        ""@
    }

    open spec fn s_fun_div(&self) -> Seq<char> {
        ""@
    }

    open spec fn s_fun_mod(&self) -> Seq<char> {
        ""@
    }

    open spec fn s_fun_simple_equality(&self) -> Seq<char> {
        ""@
    }

    open spec fn s_fun_simple_non_equality(&self) -> Seq<char> {
        ""@
    }

    open spec fn s_fun_copy(&self) -> Seq<char> {
        ""@
    }

    open spec fn s_fun_drop(&self) -> Seq<char> {
        ""@
    }

    open spec fn s_fun_swap(&self) -> Seq<char> {
        ""@
    }

    open spec fn s_fun_logical_not(&self) -> Seq<char> {
        ""@
    }

    open spec fn s_fun_logical_and(&self) -> Seq<char> {
        ""@
    }

    open spec fn s_fun_logical_or(&self) -> Seq<char> {
        ""@
    }

    open spec fn s_fun_num_greater(&self) -> Seq<char> {
        ""@
    }

    open spec fn s_fun_num_greater_or_equal(&self) -> Seq<char> {
        ""@
    }

    open spec fn s_fun_num_less_than(&self) -> Seq<char> {
        ""@
    }

    open spec fn s_fun_num_less_than_or_equal(&self) -> Seq<char> {
        ""@
    }

    open spec fn s_create_then_condition(&self, body: Seq<char>) -> Seq<char> {
        Seq::empty()
    }

    open spec fn s_create_else_condition(&self, body: Seq<char>) -> Seq<char> {
        Seq::empty()
    }

    open spec fn s_create_elect_block(&self, body: Seq<char>) -> Seq<char> {
        Seq::empty()
    }

    open spec fn s_create_loop_block(&self, body: Seq<char>) -> Seq<char> {
        Seq::empty()
    }

    open spec fn s_loop_break(&self) -> Seq<char> {
        ""@
    }

    open spec fn s_method_return(&self) -> Seq<char> {
        ""@
    }

    open spec fn s_create_variable(&self, name: Seq<char>) -> Seq<char> {
        Seq::empty()
    }

    open spec fn s_read_variable(&self, name: Seq<char>) -> Seq<char> {
        Seq::empty()
    }

    open spec fn s_write_variable(&self, name: Seq<char>) -> Seq<char> {
        Seq::empty()
    }

    fn complete(&self, compiled: &str) -> (r: String) {
        compiled.to_owned()
    }

    fn create_function(&self, fname: &str, body: String) -> (r: String) {
        String::new()
    }

    fn push_integer(&self, i: &str) -> (r: String) {
        String::new()
    }

    fn push_string(&self, s: &str) -> (r: String) {
        String::new()
    }

    fn user_function(&self, f: &str) -> (r: String) {
        String::new()
    }

    fn linkin_function(&self, name: &str) -> (r: String) {
        String::new()
    }

    fn fun_add(&self) -> (r: &'static str) {
        ""
    }

    fn fun_sub(&self) -> (r: &'static str) {
        ""
    }

    fn fun_mul(&self) -> (r: &'static str) {
        ""
    }

    fn fun_div(&self) -> (r: &'static str) {
        ""
    }

    fn fun_mod(&self) -> (r: &'static str) {
        ""
    }

    fn fun_simple_equality(&self) -> (r: &'static str) {
        ""
    }

    fn fun_simple_non_equality(&self) -> (r: &'static str) {
        ""
    }

    fn fun_copy(&self) -> (r: &'static str) {
        ""
    }

    fn fun_drop(&self) -> (r: &'static str) {
        ""
    }

    fn fun_swap(&self) -> (r: &'static str) {
        ""
    }

    fn fun_logical_not(&self) -> (r: &'static str) {
        ""
    }

    fn fun_logical_and(&self) -> (r: &'static str) {
        ""
    }

    fn fun_logical_or(&self) -> (r: &'static str) {
        ""
    }

    fn fun_num_greater(&self) -> (r: &'static str) {
        ""
    }

    fn fun_num_greater_or_equal(&self) -> (r: &'static str) {
        ""
    }

    fn fun_num_less_than(&self) -> (r: &'static str) {
        ""
    }

    fn fun_num_less_than_or_equal(&self) -> (r: &'static str) {
        ""
    }

    fn create_then_condition(&self, body: String) -> (r: String) {
        String::new()
    }

    fn create_else_condition(&self, body: String) -> (r: String) {
        String::new()
    }

    fn create_elect_block(&self, body: String) -> (r: String) {
        String::new()
    }

    fn create_loop_block(&self, body: String) -> (r: String) {
        String::new()
    }

    fn loop_break(&self) -> (r: &'static str) {
        ""
    }

    fn method_return(&self) -> (r: &'static str) {
        ""
    }

    fn create_variable(&self, name: &str) -> (r: String) {
        String::new()
    }

    fn read_variable(&self, name: &str) -> (r: String) {
        String::new()
    }

    fn write_variable(&self, name: &str) -> (r: String) {
        String::new()
    }
}

/// The provided code-producing backends, selectable by name.
pub enum BackendChoice {
    C99(c99::C99Backend),
    Nasm64(nasm64::Nasm64Backend),
}

/// Picks a backend by its public name; unknown names select nothing.
pub fn select(name: &str) -> (r: Option<BackendChoice>)
    ensures
        name@ == "C99"@ ==> r matches Some(BackendChoice::C99(_)),
        name@ == "NASM64"@ ==> r matches Some(BackendChoice::Nasm64(_)),
        name@ != "C99"@ && name@ != "NASM64"@ ==> r is None,
{
    proof {
        reveal_strlit("C99");
        reveal_strlit("NASM64");
        assert("C99"@.len() != "NASM64"@.len());
    }
    if str_eq(name, "C99") {
        Some(BackendChoice::C99(c99::C99Backend {  }))
    } else if str_eq(name, "NASM64") {
        Some(BackendChoice::Nasm64(nasm64::Nasm64Backend {  }))
    } else {
        None
    }
}

} // verus!
