//! The compiler exercised end to end through its public interface.

use dryft::backends::{C99Backend, MockBackend};
use dryft::frontend::{compile, make_strings};

fn expect_dryft_err(code: &str, e: &str) {
    match compile(&MockBackend {}, code) {
        Ok(_) => panic!("expected a compile error"),
        Err(err) => assert_eq!(e.to_string(), err.message()),
    }
}

#[test]
fn frontend_simple_parse() {
    let cs = compile(&MockBackend {}, "fun: inc\n\t1 + ;fun").unwrap();
    assert_eq!(
        cs.log_tokens,
        make_strings(vec!["fun:", "inc", "1", "+", ";fun"])
    );
}

#[test]
fn frontend_semicolon_ending() {
    let cs = compile(&MockBackend {}, "fun: id ;").unwrap();
    let cs2 = compile(&MockBackend {}, "fun: id ;fun").unwrap();
    assert_eq!(cs.out, cs2.out);
}

#[test]
fn frontend_function_compilation() {
    let cs = compile(&C99Backend {}, "fun: sum3 + + ;fun").unwrap();
    assert_eq!(
        cs.out.unwrap(),
        "void fun_sum3() { add(); add(); }\n".to_string()
    );
}

#[test]
fn frontend_strings() {
    let _cs = compile(&C99Backend {}, "fun idk \" # fake comment # \" ; ").unwrap();
}

#[test]
fn ts_primitive() {
    expect_dryft_err(
        "act main \"text\" 1 + :act",
        "[DRYFT ERROR] <main>:1, word 4: Type mismatch : Expected Number, found Text",
    );
}

#[test]
fn ts_variable_read() {
    expect_dryft_err(
        "act main \"hello\" var x 5 var y $x $y + :act",
        "[DRYFT ERROR] <main>:1, word 10: Type mismatch : Expected Number, found Text",
    );
}

#[test]
fn ts_variable_write() {
    expect_dryft_err(
        "act main 1 var x \"str\" x! :act",
        "[DRYFT ERROR] <main>:1, word 6: Type mismatch : Expected Number, found Text",
    );
}

#[test]
fn ts_function_inference() {
    expect_dryft_err(
        "fun: inc 1 + ; act main true inc ;",
        "[DRYFT ERROR] <main>:1, word 9: Type mismatch : Expected Number, found Binary",
    );
}

#[test]
fn test_simple_parse() {
    let cs = compile(&MockBackend {}, "fun: inc\n\t1 + :fun").unwrap();
    assert_eq!(
        cs.log_tokens,
        make_strings(vec!["fun:", "inc", "1", "+", ":fun"])
    );
}

#[test]
fn test_semicolon_ending() {
    let cs = compile(&MockBackend {}, "fun: id ;").unwrap();
    let cs2 = compile(&MockBackend {}, "fun: id :fun").unwrap();
    assert_eq!(cs.out, cs2.out);
}

#[test]
fn test_function_compilation() {
    let cs = compile(&C99Backend {}, "fun: sum3 + + :fun").unwrap();
    assert_eq!(
        cs.out.unwrap(),
        "void fun_sum3() { add(); add(); }\n".to_string()
    );
}

#[test]
fn test_strings() {
    let _cs = compile(&C99Backend {}, "fun idk \" # fake comment # \" ; ").unwrap();
}
