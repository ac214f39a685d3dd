use linegrep::{CompileError, Pattern};

#[test]
fn compile_valid_keeps_raw() {
    let p = Pattern::compile("a.b").expect("a.b is a valid regular expression");
    assert_eq!(p.raw_text(), "a.b");
}

#[test]
fn compile_empty_pattern_is_valid() {
    let p = Pattern::compile("").expect("the empty pattern is a valid regular expression");
    assert_eq!(p.raw_text(), "");
}

#[test]
fn compile_invalid_unbalanced_paren() {
    let r = Pattern::compile("(");
    assert!(matches!(r, Err(CompileError::InvalidPattern(_))));
}

#[test]
fn compile_invalid_unbalanced_bracket() {
    let r = Pattern::compile("[");
    assert!(matches!(r, Err(CompileError::InvalidPattern(_))));
}

#[test]
fn compile_error_carries_compiler_diagnostic() {
    let r = Pattern::compile("(");
    let expected = regex::Regex::new("(").unwrap_err().to_string();
    match r {
        Err(CompileError::InvalidPattern(msg)) => {
            assert!(!msg.is_empty());
            assert_eq!(msg, expected);
        }
        Ok(_) => panic!("an unbalanced parenthesis must not compile"),
    }
}
