//! Backend producing a freestanding C99 translation unit.  The compiled body
//! is appended to a fixed runtime preamble implementing the operand stack and
//! the builtin operations.

use vstd::prelude::*;
use vstd::string::StringExecFns;

use crate::backends::Backend;

verus! {

/// The fixed C99 runtime placed before the compiled body.
pub const C99_PRELUDE: &'static str = "typedef unsigned long size_t;\nconst int true = 1;\nconst int false = 0;\nsize_t dryft_stack[4096];\nsize_t dryft_sp = 0;\nint last_condition = 0;\nvoid dryft_push(size_t v) { dryft_stack[dryft_sp++] = v; }\nsize_t dryft_pop() { return dryft_stack[--dryft_sp]; }\nvoid add() { size_t b = dryft_pop(); size_t a = dryft_pop(); dryft_push(a + b); }\nvoid sub() { size_t b = dryft_pop(); size_t a = dryft_pop(); dryft_push(a - b); }\nvoid mul() { size_t b = dryft_pop(); size_t a = dryft_pop(); dryft_push(a * b); }\nvoid div() { size_t b = dryft_pop(); size_t a = dryft_pop(); dryft_push(a / b); }\nvoid mod() { size_t b = dryft_pop(); size_t a = dryft_pop(); dryft_push(a % b); }\nvoid copy() { size_t a = dryft_pop(); dryft_push(a); dryft_push(a); }\nvoid drop() { dryft_pop(); }\nvoid swap() { size_t b = dryft_pop(); size_t a = dryft_pop(); dryft_push(b); dryft_push(a); }\nvoid simple_equality() { size_t b = dryft_pop(); size_t a = dryft_pop(); dryft_push(a == b); }\nvoid simple_non_equality() { size_t b = dryft_pop(); size_t a = dryft_pop(); dryft_push(a != b); }\nvoid num_greater() { size_t b = dryft_pop(); size_t a = dryft_pop(); dryft_push(a > b); }\nvoid num_greater_or_equal() { size_t b = dryft_pop(); size_t a = dryft_pop(); dryft_push(a >= b); }\nvoid num_less_than() { size_t b = dryft_pop(); size_t a = dryft_pop(); dryft_push(a < b); }\nvoid num_less_than_or_equal() { size_t b = dryft_pop(); size_t a = dryft_pop(); dryft_push(a <= b); }\nvoid logical_not() { dryft_push(!dryft_pop()); }\nvoid logical_and() { size_t b = dryft_pop(); size_t a = dryft_pop(); dryft_push(a && b); }\nvoid logical_or() { size_t b = dryft_pop(); size_t a = dryft_pop(); dryft_push(a || b); }\nvoid fun_main();\nint main() { fun_main(); return 0; }\n";

/// The C99 backend.
pub struct C99Backend {}

impl Backend for C99Backend {
    open spec fn s_complete(&self, compiled: Seq<char>) -> Seq<char> {
        C99_PRELUDE@ + compiled
    }

    open spec fn s_create_function(&self, fname: Seq<char>, body: Seq<char>) -> Seq<char> {
        "void fun_"@ + fname + "() { "@ + body + "}\n"@
    }

    open spec fn s_push_integer(&self, i: Seq<char>) -> Seq<char> {
        "dryft_push("@ + i + "); "@
    }

    open spec fn s_push_string(&self, s: Seq<char>) -> Seq<char> {
        "dryft_push(\""@ + s + "\"); "@
    }

    open spec fn s_user_function(&self, f: Seq<char>) -> Seq<char> {
        "fun_"@ + f + "(); "@
    }

    open spec fn s_linkin_function(&self, name: Seq<char>) -> Seq<char> {
        "void "@ + name + "();\nvoid fun_"@ + name + "(){ "@ + name + "(); }\n"@
    }

    open spec fn s_fun_add(&self) -> Seq<char> {
        "add(); "@
    }

    open spec fn s_fun_sub(&self) -> Seq<char> {
        "sub(); "@
    }

    open spec fn s_fun_mul(&self) -> Seq<char> {
        "mul(); "@
    }

    open spec fn s_fun_div(&self) -> Seq<char> {
        "div(); "@
    }

    open spec fn s_fun_mod(&self) -> Seq<char> {
        "mod(); "@
    }

    open spec fn s_fun_simple_equality(&self) -> Seq<char> {
        "simple_equality(); "@
    }

    open spec fn s_fun_simple_non_equality(&self) -> Seq<char> {
        "simple_non_equality(); "@
    }

    open spec fn s_fun_copy(&self) -> Seq<char> {
        "copy(); "@
    }

    open spec fn s_fun_drop(&self) -> Seq<char> {
        "drop(); "@
    }

    open spec fn s_fun_swap(&self) -> Seq<char> {
        "swap(); "@
    }

    open spec fn s_fun_logical_not(&self) -> Seq<char> {
        "logical_not(); "@
    }

    open spec fn s_fun_logical_and(&self) -> Seq<char> {
        "logical_and(); "@
    }

    open spec fn s_fun_logical_or(&self) -> Seq<char> {
        "logical_or(); "@
    }

    open spec fn s_fun_num_greater(&self) -> Seq<char> {
        "num_greater(); "@
    }

    open spec fn s_fun_num_greater_or_equal(&self) -> Seq<char> {
        "num_greater_or_equal(); "@
    }

    open spec fn s_fun_num_less_than(&self) -> Seq<char> {
        "num_less_than(); "@
    }

    open spec fn s_fun_num_less_than_or_equal(&self) -> Seq<char> {
        "num_less_than_or_equal(); "@
    }

    open spec fn s_create_then_condition(&self, body: Seq<char>) -> Seq<char> {
        "if (dryft_pop()) {\n\tlast_condition = true;\n"@ + body
            + "\n} else {\t\nlast_condition = false;\n}"@
    }

    open spec fn s_create_else_condition(&self, body: Seq<char>) -> Seq<char> {
        "if (!last_condition) {\n\t"@ + body + "\n}"@
    }

    open spec fn s_create_elect_block(&self, body: Seq<char>) -> Seq<char> {
        "{\n"@ + body + "\n}"@
    }

    open spec fn s_create_loop_block(&self, body: Seq<char>) -> Seq<char> {
        "for (;;) {\n\t"@ + body + "\n}"@
    }

    open spec fn s_loop_break(&self) -> Seq<char> {
        "break;"@
    }

    open spec fn s_method_return(&self) -> Seq<char> {
        "return; "@
    }

    open spec fn s_create_variable(&self, name: Seq<char>) -> Seq<char> {
        "size_t var_"@ + name + " = dryft_pop(); "@
    }

    open spec fn s_read_variable(&self, name: Seq<char>) -> Seq<char> {
        "dryft_push(var_"@ + name + "); "@
    }

    open spec fn s_write_variable(&self, name: Seq<char>) -> Seq<char> {
        "var_"@ + name + " = dryft_pop(); "@
    }

    fn complete(&self, compiled: &str) -> (r: String) {
        let mut s = String::new();
        s.append(C99_PRELUDE);
        s.append(compiled);
        proof {
            assert(s@ =~= self.s_complete(compiled@));
        }
        s
    }

    fn create_function(&self, fname: &str, body: String) -> (r: String) {
        let mut s = String::new();
        s.append("void fun_");
        s.append(fname);
        s.append("() { ");
        s.append(body.as_str());
        s.append("}\n");
        proof {
            assert(s@ =~= self.s_create_function(fname@, body@));
        }
        s
    }

    fn push_integer(&self, i: &str) -> (r: String) {
        let mut s = String::new();
        s.append("dryft_push(");
        s.append(i);
        s.append("); ");
        proof {
            assert(s@ =~= self.s_push_integer(i@));
        }
        s
    }

    fn push_string(&self, st: &str) -> (r: String) {
        let mut s = String::new();
        s.append("dryft_push(\"");
        s.append(st);
        s.append("\"); ");
        proof {
            assert(s@ =~= self.s_push_string(st@));
        }
        s
    }

    fn user_function(&self, f: &str) -> (r: String) {
        let mut s = String::new();
        s.append("fun_");
        s.append(f);
        s.append("(); ");
        proof {
            assert(s@ =~= self.s_user_function(f@));
        }
        s
    }

    fn linkin_function(&self, name: &str) -> (r: String) {
        let mut s = String::new();
        s.append("void ");
        s.append(name);
        s.append("();\nvoid fun_");
        s.append(name);
        s.append("(){ ");
        s.append(name);
        s.append("(); }\n");
        proof {
            assert(s@ =~= self.s_linkin_function(name@));
        }
        s
    }

    fn fun_add(&self) -> (r: &'static str) {
        "add(); "
    }

    fn fun_sub(&self) -> (r: &'static str) {
        "sub(); "
    }

    fn fun_mul(&self) -> (r: &'static str) {
        "mul(); "
    }

    fn fun_div(&self) -> (r: &'static str) {
        "div(); "
    }

    fn fun_mod(&self) -> (r: &'static str) {
        "mod(); "
    }

    fn fun_simple_equality(&self) -> (r: &'static str) {
        "simple_equality(); "
    }

    fn fun_simple_non_equality(&self) -> (r: &'static str) {
        "simple_non_equality(); "
    }

    fn fun_copy(&self) -> (r: &'static str) {
        "copy(); "
    }

    fn fun_drop(&self) -> (r: &'static str) {
        "drop(); "
    }

    fn fun_swap(&self) -> (r: &'static str) {
        "swap(); "
    }

    fn fun_logical_not(&self) -> (r: &'static str) {
        "logical_not(); "
    }

    fn fun_logical_and(&self) -> (r: &'static str) {
        "logical_and(); "
    }

    fn fun_logical_or(&self) -> (r: &'static str) {
        "logical_or(); "
    }

    fn fun_num_greater(&self) -> (r: &'static str) {
        "num_greater(); "
    }

    fn fun_num_greater_or_equal(&self) -> (r: &'static str) {
        "num_greater_or_equal(); "
    }

    fn fun_num_less_than(&self) -> (r: &'static str) {
        "num_less_than(); "
    }

    fn fun_num_less_than_or_equal(&self) -> (r: &'static str) {
        "num_less_than_or_equal(); "
    }

    fn create_then_condition(&self, body: String) -> (r: String) {
        let mut s = String::new();
        s.append("if (dryft_pop()) {\n\tlast_condition = true;\n");
        s.append(body.as_str());
        s.append("\n} else {\t\nlast_condition = false;\n}");
        proof {
            assert(s@ =~= self.s_create_then_condition(body@));
        }
        s
    }

    fn create_else_condition(&self, body: String) -> (r: String) {
        let mut s = String::new();
        s.append("if (!last_condition) {\n\t");
        s.append(body.as_str());
        s.append("\n}");
        proof {
            assert(s@ =~= self.s_create_else_condition(body@));
        }
        s
    }

    fn create_elect_block(&self, body: String) -> (r: String) {
        let mut s = String::new();
        s.append("{\n");
        s.append(body.as_str());
        s.append("\n}");
        proof {
            assert(s@ =~= self.s_create_elect_block(body@));
        }
        s
    }

    fn create_loop_block(&self, body: String) -> (r: String) {
        let mut s = String::new();
        s.append("for (;;) {\n\t");
        s.append(body.as_str());
        s.append("\n}");
        proof {
            assert(s@ =~= self.s_create_loop_block(body@));
        }
        s
    }

    fn loop_break(&self) -> (r: &'static str) {
        "break;"
    }

    fn method_return(&self) -> (r: &'static str) {
        "return; "
    }

    fn create_variable(&self, name: &str) -> (r: String) {
        let mut s = String::new();
        s.append("size_t var_");
        s.append(name);
        s.append(" = dryft_pop(); ");
        proof {
            assert(s@ =~= self.s_create_variable(name@));
        }
        s
    }

    fn read_variable(&self, name: &str) -> (r: String) {
        let mut s = String::new();
        s.append("dryft_push(var_");
        s.append(name);
        s.append("); ");
        proof {
            assert(s@ =~= self.s_read_variable(name@));
        }
        s
    }

    fn write_variable(&self, name: &str) -> (r: String) {
        let mut s = String::new();
        s.append("var_");
        s.append(name);
        s.append(" = dryft_pop(); ");
        proof {
            assert(s@ =~= self.s_write_variable(name@));
        }
        s
    }
}

} // verus!
