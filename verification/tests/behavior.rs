//! Behaviour of the compiler on concrete programs: one scenario for each
//! law, each error kind, and each language construct.

use dryft::backends::{select, BackendChoice, C99Backend, MockBackend, Nasm64Backend};
use dryft::errors::ErrorKind;
use dryft::frontend::{compile, compile_full, is_int_literal};
use dryft::state::{CompileState, ValueTypes};
use dryft::strutil::{str_eq, u64_to_string};

fn c99_out(code: &str) -> String {
    compile(&C99Backend {}, code).unwrap().out.unwrap()
}

fn c99_err(code: &str) -> String {
    compile(&C99Backend {}, code).unwrap_err().message()
}

// --- equivalent terminators ------------------------------------------------

#[test]
fn terminator_equivalence_action() {
    let a = compile(&C99Backend {}, "act main 1 v ;").unwrap().out;
    let b = compile(&C99Backend {}, "act main 1 v :act").unwrap().out;
    let c = compile(&C99Backend {}, "act main 1 v end").unwrap().out;
    assert_eq!(a, b);
    assert_eq!(a, c);
}

#[test]
fn terminator_equivalence_nested() {
    let a = c99_out("act main true then 2 v :then ;");
    let b = c99_out("act main true then 2 v ; :act");
    assert_eq!(a, b);
}

#[test]
fn terminator_equivalence_elect() {
    let a = c99_out("act main elect true then 1 v :then ; ;");
    let b = c99_out("act main elect true then 1 v :then :elect :act");
    assert_eq!(a, b);
}

// --- comment opacity -------------------------------------------------------

#[test]
fn comment_between_tokens_is_inert() {
    let plain = c99_out("fun: inc 1 + :fun");
    let commented = c99_out("fun: inc # a passing note # 1 + :fun");
    assert_eq!(plain, commented);
}

#[test]
fn comment_may_hold_keywords() {
    let plain = c99_out("act main 1 v ;");
    let commented = c99_out("act main # fun act var then ; # 1 v ;");
    assert_eq!(plain, commented);
}

// --- string opacity --------------------------------------------------------

#[test]
fn string_literal_preserved() {
    assert_eq!(
        c99_out("fun idk \" # fake comment # \" ;"),
        "void fun_idk() { dryft_push(\" # fake comment # \"); }\n"
    );
}

#[test]
fn string_keywords_are_inert() {
    assert_eq!(
        c99_out("fun s \" fun act + break \" ;"),
        "void fun_s() { dryft_push(\" fun act + break \"); }\n"
    );
}

// --- symbol-table monotonicity ---------------------------------------------

#[test]
fn defined_symbol_stays_defined() {
    assert_eq!(
        c99_out("fun: f 1 v ; act main f f ;"),
        "void fun_f() { dryft_push(1); drop(); }\nvoid fun_main() { fun_f(); fun_f(); }\n"
    );
}

#[test]
fn method_redefinition_rejected() {
    assert_eq!(
        c99_err("fun: f ; fun: f ;"),
        "[DRYFT ERROR] <main>:1, word 5: Symbol f is already defined"
    );
}

#[test]
fn variable_may_not_shadow_method() {
    assert_eq!(
        c99_err("fun: f ; act main 1 var f ;"),
        "[DRYFT ERROR] <main>:1, word 8: Symbol f is already defined"
    );
}

#[test]
fn variable_redefinition_rejected() {
    assert_eq!(
        c99_err("act main 1 var x true then 2 var x :then ;"),
        "[DRYFT ERROR] <main>:1, word 10: Symbol x is already defined"
    );
}

// --- scope nesting ---------------------------------------------------------

#[test]
fn variable_invisible_after_action_ends() {
    assert_eq!(
        c99_err("act main 1 var x :act act other $x v ;"),
        "[DRYFT ERROR] <main>:1, word 9: Undefined variable x"
    );
}

#[test]
fn variable_invisible_after_then_ends() {
    assert_eq!(
        c99_err("act main 1 var x true then 2 var y :then $y v ;"),
        "[DRYFT ERROR] <main>:1, word 12: Undefined variable y"
    );
}

// --- type preservation -----------------------------------------------------

#[test]
fn inferred_effects_compose() {
    assert_eq!(
        c99_out("fun: two 1 2 ; fun: use two + ;"),
        "void fun_two() { dryft_push(1); dryft_push(2); }\nvoid fun_use() { fun_two(); add(); }\n"
    );
}

#[test]
fn push_and_add() {
    assert_eq!(
        c99_out("fun: inc 1 + :fun"),
        "void fun_inc() { dryft_push(1); add(); }\n"
    );
}

// --- language constructs ---------------------------------------------------

#[test]
fn linkin_emits_trampoline() {
    assert_eq!(
        c99_out("linkin fun osfun act main osfun ;"),
        "void osfun();\nvoid fun_osfun(){ osfun(); }\nvoid fun_main() { fun_osfun(); }\n"
    );
}

#[test]
fn loop_with_break() {
    assert_eq!(
        c99_out("act main loop break :loop ;"),
        "void fun_main() { for (;;) {\n\tbreak;\n}}\n"
    );
}

#[test]
fn variable_lifecycle() {
    assert_eq!(
        c99_out("act main 5 var x $x x! ;"),
        "void fun_main() { dryft_push(5); size_t var_x = dryft_pop(); dryft_push(var_x); var_x = dryft_pop(); }\n"
    );
}

#[test]
fn then_block_lowering() {
    assert_eq!(
        c99_out("act main true then 2 v :then ;"),
        "void fun_main() { dryft_push(1); if (dryft_pop()) {\n\tlast_condition = true;\ndryft_push(2); drop(); \n} else {\t\nlast_condition = false;\n}}\n"
    );
}

#[test]
fn stack_and_comparison_builtins() {
    assert_eq!(
        c99_out("act main 1 2 swap >? v ;"),
        "void fun_main() { dryft_push(1); dryft_push(2); swap(); num_greater(); drop(); }\n"
    );
}

#[test]
fn logical_builtins() {
    assert_eq!(
        c99_out("act main 1 2 =? not true both? false either? v ;"),
        "void fun_main() { dryft_push(1); dryft_push(2); simple_equality(); logical_not(); dryft_push(1); logical_and(); dryft_push(0); logical_or(); drop(); }\n"
    );
}

#[test]
fn module_body_is_discarded() {
    assert_eq!(
        c99_out("fun: f ; module f :module"),
        "void fun_f() { }\n"
    );
}

#[test]
fn copy_duplicates_any_type() {
    assert_eq!(
        c99_out("act main \"s\" copy v v ;"),
        "void fun_main() { dryft_push(\"s\"); copy(); drop(); drop(); }\n"
    );
}

#[test]
fn arithmetic_and_return() {
    assert_eq!(
        c99_out("fun: m 6 7 * 2 / 3 mod return ;"),
        "void fun_m() { dryft_push(6); dryft_push(7); mul(); dryft_push(2); div(); dryft_push(3); mod(); return; }\n"
    );
}

#[test]
fn negative_integer_literal() {
    assert_eq!(
        c99_out("act main -12 v ;"),
        "void fun_main() { dryft_push(-12); drop(); }\n"
    );
}

// --- diagnostics -----------------------------------------------------------

#[test]
fn unknown_token() {
    assert_eq!(
        c99_err("act main foo ;"),
        "[DRYFT ERROR] <main>:1, word 3: Unknown token 'foo'"
    );
}

#[test]
fn misplaced_block_ending() {
    assert_eq!(
        c99_err("fun: f 1 v :act"),
        "[DRYFT ERROR] <main>:1, word 5: Misplaced Action block ending"
    );
}

#[test]
fn ending_without_block() {
    assert_eq!(
        c99_err(":fun"),
        "[DRYFT ERROR] <main>:1, word 1: No block to end"
    );
}

#[test]
fn misplaced_semicolon() {
    assert_eq!(c99_err(";"), "[DRYFT ERROR] <main>:1, word 1: Misplaced ;");
}

#[test]
fn function_without_name() {
    assert_eq!(
        c99_err("fun: ;"),
        "[DRYFT ERROR] <main>:1, word 2: No function name provided"
    );
}

#[test]
fn main_must_be_an_action() {
    assert_eq!(
        c99_err("fun: main ;"),
        "[DRYFT ERROR] <main>:1, word 3: main must be defined as an action"
    );
}

#[test]
fn action_call_inside_function() {
    assert_eq!(
        c99_err("act: a 1 v ; fun: f a ;"),
        "[DRYFT ERROR] <main>:1, word 8: Can not call actions from inside a function"
    );
}

#[test]
fn undefined_variable_write() {
    assert_eq!(
        c99_err("act main x! ;"),
        "[DRYFT ERROR] <main>:1, word 3: Undefined variable x"
    );
}

#[test]
fn invalid_linkin_class() {
    assert_eq!(
        c99_err("linkin foo bar"),
        "[DRYFT ERROR] <main>:1, word 3: Invalid link-in class foo"
    );
}

#[test]
fn drop_on_empty_stack() {
    assert_eq!(
        c99_err("act main v ;"),
        "[DRYFT ERROR] <main>:1, word 3: Type stack underflow"
    );
}

#[test]
fn top_level_literal_has_no_frame() {
    assert_eq!(
        c99_err("1"),
        "[DRYFT ERROR] <main>:1, word 1: Type stack underflow"
    );
}

#[test]
fn error_position_tracks_lines() {
    assert_eq!(
        c99_err("act main\nv ;"),
        "[DRYFT ERROR] <main>:2, word 1: Type stack underflow"
    );
}

#[test]
fn footprint_mismatch_reported() {
    let mut cs = CompileState::new();
    cs.grow_typestack();
    cs.grow_voidstack();
    cs.push_type(ValueTypes::Number);
    let e = cs.expect_no_type_footprint().unwrap_err();
    assert_eq!(
        e.message(),
        "[DRYFT ERROR] <main>:1, word 0: Block returns [Number], but consumes []"
    );
}

#[test]
fn footprint_mismatch_lists_both_sequences() {
    let mut cs = CompileState::new();
    cs.grow_typestack();
    cs.grow_voidstack();
    cs.push_type(ValueTypes::Number);
    cs.push_type(ValueTypes::Text);
    let e = cs.expect_no_type_footprint().unwrap_err();
    assert_eq!(
        e.message(),
        "[DRYFT ERROR] <main>:1, word 0: Block returns [Number, Text], but consumes []"
    );
}

#[test]
fn warning_text_carries_position() {
    let cs = CompileState::new();
    assert_eq!(
        cs.warning_message("reserved keyword"),
        "[DRYFT WARNING] <main>:1, word 0: reserved keyword"
    );
}

#[test]
fn throw_error_carries_position() {
    let cs = CompileState::new();
    let e = cs.throw_error(ErrorKind::NoBlockToEnd);
    assert_eq!(e.message(), "[DRYFT ERROR] <main>:1, word 0: No block to end");
}

// --- state helpers ---------------------------------------------------------

#[test]
fn state_helpers() {
    let mut cs = CompileState::new();
    assert!(cs.before_action());
    assert_eq!(cs.variable_in_scope("x"), None);
    cs.grow_typestack();
    cs.grow_voidstack();
    cs.push_type(ValueTypes::Text);
    assert_eq!(cs.pop_type(), ValueTypes::Text);
    cs.push_types(&[ValueTypes::Number, ValueTypes::Binary]);
    assert_eq!(cs.pop_type(), ValueTypes::Binary);
    cs.add2body("x");
    assert_eq!(cs.bodystack.last().unwrap(), "x");
}

// --- backends and the full pipeline ----------------------------------------

#[test]
fn select_by_name() {
    assert!(matches!(select("C99"), Some(BackendChoice::C99(_))));
    assert!(matches!(select("NASM64"), Some(BackendChoice::Nasm64(_))));
    assert!(select("PDP11").is_none());
}

#[test]
fn full_c99_program() {
    let prog = compile_full(C99Backend {}, "act main 1 v ;").unwrap();
    assert!(prog.starts_with("typedef unsigned long size_t;"));
    assert!(prog.ends_with("void fun_main() { dryft_push(1); drop(); }\n"));
}

#[test]
fn full_mock_program_is_bare() {
    let prog = compile_full(MockBackend {}, "fun: id ;").unwrap();
    assert_eq!(prog, "");
}

#[test]
fn nasm_backend_emits_calls() {
    let out = compile(&Nasm64Backend {}, "fun: sum + ;")
        .unwrap()
        .out
        .unwrap();
    assert_eq!(out, "fun_sum:\n\tcall builtin_add\n\tret\n\n");
}

#[test]
fn endfun_synonym() {
    let a = compile(&C99Backend {}, "fun: id ;").unwrap().out;
    let b = compile(&C99Backend {}, "fun: id endfun").unwrap().out;
    assert_eq!(a, b);
}

#[test]
fn unclosed_block_keeps_root_buffer() {
    let cs = compile(&C99Backend {}, "fun: f 1").unwrap();
    assert_eq!(cs.out.unwrap(), "");
    assert_eq!(cs.bodystack, vec!["dryft_push(1); ".to_string()]);
}

// --- small helpers ---------------------------------------------------------

#[test]
fn decimal_rendering() {
    assert_eq!(u64_to_string(0), "0");
    assert_eq!(u64_to_string(7), "7");
    assert_eq!(u64_to_string(905), "905");
    assert_eq!(u64_to_string(18446744073709551615), "18446744073709551615");
}

#[test]
fn string_equality_by_characters() {
    assert!(str_eq("abc", "abc"));
    assert!(!str_eq("abc", "abd"));
    assert!(!str_eq("abc", "ab"));
    assert!(str_eq("", ""));
}

#[test]
fn integer_literal_shapes() {
    assert!(is_int_literal("0"));
    assert!(is_int_literal("-12"));
    assert!(!is_int_literal("-"));
    assert!(!is_int_literal(""));
    assert!(!is_int_literal("1x"));
    assert!(!is_int_literal("x1"));
}
