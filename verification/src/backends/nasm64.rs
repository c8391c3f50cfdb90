//! Backend producing 64-bit assembly in a NASM-like dialect.  Structural
//! constructs are emitted as invocations of runtime-provided macros
//! (`mpush`, `mthenbegin`, ...) so that the stateless emitter needs no label
//! generation.

use vstd::prelude::*;
use vstd::string::StringExecFns;

use crate::backends::Backend;

verus! {

/// The fixed header placed before the compiled body.
pub const NASM64_PRELUDE: &'static str = "BITS 64\nSECTION .text\nGLOBAL _start\n_start:\n\tcall fun_main\n\tmov rax, 60\n\txor rdi, rdi\n\tsyscall\n";

/// The NASM64 backend.
pub struct Nasm64Backend {}

impl Backend for Nasm64Backend {
    open spec fn s_complete(&self, compiled: Seq<char>) -> Seq<char> {
        NASM64_PRELUDE@ + compiled
    }

    open spec fn s_create_function(&self, fname: Seq<char>, body: Seq<char>) -> Seq<char> {
        "fun_"@ + fname + ":\n"@ + body + "\tret\n\n"@
    }

    open spec fn s_push_integer(&self, i: Seq<char>) -> Seq<char> {
        "\tmpush "@ + i + "\n"@
    }

    open spec fn s_push_string(&self, s: Seq<char>) -> Seq<char> {
        "\tmpushstr \""@ + s + "\"\n"@
    }

    open spec fn s_user_function(&self, f: Seq<char>) -> Seq<char> {
        "\tcall fun_"@ + f + "\n"@
    }

    open spec fn s_linkin_function(&self, name: Seq<char>) -> Seq<char> {
        "\nEXTERN "@ + name + "\nfun_"@ + name + ":\n\tcall "@ + name + "\n\tret\n\n"@
    }

    open spec fn s_fun_add(&self) -> Seq<char> {
        "\tcall builtin_add\n"@
    }

    open spec fn s_fun_sub(&self) -> Seq<char> {
        "\tcall builtin_sub\n"@
    }

    open spec fn s_fun_mul(&self) -> Seq<char> {
        "\tcall builtin_mul\n"@
    }

    open spec fn s_fun_div(&self) -> Seq<char> {
        "\tcall builtin_div\n"@
    }

    open spec fn s_fun_mod(&self) -> Seq<char> {
        "\tcall builtin_mod\n"@
    }

    open spec fn s_fun_simple_equality(&self) -> Seq<char> {
        "\t call builtin_simple_equality\n"@
    }

    open spec fn s_fun_simple_non_equality(&self) -> Seq<char> {
        "\t call builtin_simple_non_equality\n"@
    }

    open spec fn s_fun_copy(&self) -> Seq<char> {
        "\tcall data_copy\n"@
    }

    open spec fn s_fun_drop(&self) -> Seq<char> {
        "\tcall dryft_pop\n"@
    }

    open spec fn s_fun_swap(&self) -> Seq<char> {
        "\t call data_swap\n"@
    }

    open spec fn s_fun_logical_not(&self) -> Seq<char> {
        "\tcall builtin_logical_not\n"@
    }

    open spec fn s_fun_logical_and(&self) -> Seq<char> {
        "\tcall builtin_logical_and\n"@
    }

    open spec fn s_fun_logical_or(&self) -> Seq<char> {
        "\tcall builtin_logical_or\n"@
    }

    open spec fn s_fun_num_greater(&self) -> Seq<char> {
        "\tcall builtin_num_greater\n"@
    }

    open spec fn s_fun_num_greater_or_equal(&self) -> Seq<char> {
        "\tcall builtin_num_greater_or_equal\n"@
    }

    open spec fn s_fun_num_less_than(&self) -> Seq<char> {
        "\tcall builtin_num_less_than\n"@
    }

    open spec fn s_fun_num_less_than_or_equal(&self) -> Seq<char> {
        "\tcall builtin_num_less_than_or_equal\n"@
    }

    open spec fn s_create_then_condition(&self, body: Seq<char>) -> Seq<char> {
        "\tmthenbegin\n"@ + body + "\tmthenend\n"@
    }

    open spec fn s_create_else_condition(&self, body: Seq<char>) -> Seq<char> {
        "\tmelsebegin\n"@ + body + "\tmelseend\n"@
    }

    open spec fn s_create_elect_block(&self, body: Seq<char>) -> Seq<char> {
        "\tmelectbegin\n"@ + body + "\tmelectend\n"@
    }

    open spec fn s_create_loop_block(&self, body: Seq<char>) -> Seq<char> {
        "\tmloopbegin\n"@ + body + "\tmloopend\n"@
    }

    open spec fn s_loop_break(&self) -> Seq<char> {
        "\tmloopbreak\n"@
    }

    open spec fn s_method_return(&self) -> Seq<char> {
        "\tret\n"@
    }

    open spec fn s_create_variable(&self, name: Seq<char>) -> Seq<char> {
        "\tmvarnew var_"@ + name + "\n"@
    }

    open spec fn s_read_variable(&self, name: Seq<char>) -> Seq<char> {
        "\tmvarread var_"@ + name + "\n"@
    }

    open spec fn s_write_variable(&self, name: Seq<char>) -> Seq<char> {
        "\tmvarwrite var_"@ + name + "\n"@
    }

    fn complete(&self, compiled: &str) -> (r: String) {
        let mut s = String::new();
        s.append(NASM64_PRELUDE);
        s.append(compiled);
        proof {
            assert(s@ =~= self.s_complete(compiled@));
        }
        s
    }

    fn create_function(&self, fname: &str, body: String) -> (r: String) {
        let mut s = String::new();
        s.append("fun_");
        s.append(fname);
        s.append(":\n");
        s.append(body.as_str());
        s.append("\tret\n\n");
        proof {
            assert(s@ =~= self.s_create_function(fname@, body@));
        }
        s
    }

    fn push_integer(&self, i: &str) -> (r: String) {
        let mut s = String::new();
        s.append("\tmpush ");
        s.append(i);
        s.append("\n");
        proof {
            assert(s@ =~= self.s_push_integer(i@));
        }
        s
    }

    fn push_string(&self, st: &str) -> (r: String) {
        let mut s = String::new();
        s.append("\tmpushstr \"");
        s.append(st);
        s.append("\"\n");
        proof {
            assert(s@ =~= self.s_push_string(st@));
        }
        s
    }

    fn user_function(&self, f: &str) -> (r: String) {
        let mut s = String::new();
        s.append("\tcall fun_");
        s.append(f);
        s.append("\n");
        proof {
            assert(s@ =~= self.s_user_function(f@));
        }
        s
    }

    fn linkin_function(&self, name: &str) -> (r: String) {
        let mut s = String::new();
        s.append("\nEXTERN ");
        s.append(name);
        s.append("\nfun_");
        s.append(name);
        s.append(":\n\tcall ");
        s.append(name);
        s.append("\n\tret\n\n");
        proof {
            assert(s@ =~= self.s_linkin_function(name@));
        }
        s
    }

    fn fun_add(&self) -> (r: &'static str) {
        "\tcall builtin_add\n"
    }

    fn fun_sub(&self) -> (r: &'static str) {
        "\tcall builtin_sub\n"
    }

    fn fun_mul(&self) -> (r: &'static str) {
        "\tcall builtin_mul\n"
    }

    fn fun_div(&self) -> (r: &'static str) {
        "\tcall builtin_div\n"
    }

    fn fun_mod(&self) -> (r: &'static str) {
        "\tcall builtin_mod\n"
    }

    fn fun_simple_equality(&self) -> (r: &'static str) {
        "\t call builtin_simple_equality\n"
    }

    fn fun_simple_non_equality(&self) -> (r: &'static str) {
        "\t call builtin_simple_non_equality\n"
    }

    fn fun_copy(&self) -> (r: &'static str) {
        "\tcall data_copy\n"
    }

    fn fun_drop(&self) -> (r: &'static str) {
        "\tcall dryft_pop\n"
    }

    fn fun_swap(&self) -> (r: &'static str) {
        "\t call data_swap\n"
    }

    fn fun_logical_not(&self) -> (r: &'static str) {
        "\tcall builtin_logical_not\n"
    }

    fn fun_logical_and(&self) -> (r: &'static str) {
        "\tcall builtin_logical_and\n"
    }

    fn fun_logical_or(&self) -> (r: &'static str) {
        "\tcall builtin_logical_or\n"
    }

    fn fun_num_greater(&self) -> (r: &'static str) {
        "\tcall builtin_num_greater\n"
    }

    fn fun_num_greater_or_equal(&self) -> (r: &'static str) {
        "\tcall builtin_num_greater_or_equal\n"
    }

    fn fun_num_less_than(&self) -> (r: &'static str) {
        "\tcall builtin_num_less_than\n"
    }

    fn fun_num_less_than_or_equal(&self) -> (r: &'static str) {
        "\tcall builtin_num_less_than_or_equal\n"
    }

    fn create_then_condition(&self, body: String) -> (r: String) {
        let mut s = String::new();
        s.append("\tmthenbegin\n");
        s.append(body.as_str());
        s.append("\tmthenend\n");
        proof {
            assert(s@ =~= self.s_create_then_condition(body@));
        }
        s
    }

    fn create_else_condition(&self, body: String) -> (r: String) {
        let mut s = String::new();
        s.append("\tmelsebegin\n");
        s.append(body.as_str());
        s.append("\tmelseend\n");
        proof {
            assert(s@ =~= self.s_create_else_condition(body@));
        }
        s
    }

    fn create_elect_block(&self, body: String) -> (r: String) {
        let mut s = String::new();
        s.append("\tmelectbegin\n");
        s.append(body.as_str());
        s.append("\tmelectend\n");
        proof {
            assert(s@ =~= self.s_create_elect_block(body@));
        }
        s
    }

    fn create_loop_block(&self, body: String) -> (r: String) {
        let mut s = String::new();
        s.append("\tmloopbegin\n");
        s.append(body.as_str());
        s.append("\tmloopend\n");
        proof {
            assert(s@ =~= self.s_create_loop_block(body@));
        }
        s
    }

    fn loop_break(&self) -> (r: &'static str) {
        "\tmloopbreak\n"
    }

    fn method_return(&self) -> (r: &'static str) {
        "\tret\n"
    }

    fn create_variable(&self, name: &str) -> (r: String) {
        let mut s = String::new();
        s.append("\tmvarnew var_");
        s.append(name);
        s.append("\n");
        proof {
            assert(s@ =~= self.s_create_variable(name@));
        }
        s
    }

    fn read_variable(&self, name: &str) -> (r: String) {
        let mut s = String::new();
        s.append("\tmvarread var_");
        s.append(name);
        s.append("\n");
        proof {
            assert(s@ =~= self.s_read_variable(name@));
        }
        s
    }

    fn write_variable(&self, name: &str) -> (r: String) {
        let mut s = String::new();
        s.append("\tmvarwrite var_");
        s.append(name);
        s.append("\n");
        proof {
            assert(s@ =~= self.s_write_variable(name@));
        }
        s
    }
}

} // verus!
