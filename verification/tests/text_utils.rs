use craby::case::{flat_case, kebab_case, pascal_case, snake_case};
use craby::text::{contains_str, decimal, indent_str, join_strings, replace_str, split_str, starts_with_str, str_eq, trim_str};

#[test]
fn test_indent_str() {
    assert_eq!(
        indent_str("Hello\nWorld".to_string(), 2),
        "  Hello\n  World"
    );
    assert_eq!(
        indent_str("Hello\nWorld".to_string(), 4),
        "    Hello\n    World"
    );
}

#[test]
fn indent_keeps_blank_lines_and_drops_final_newline() {
    assert_eq!(indent_str("a\n\n  \nb\n".to_string(), 2), "  a\n\n  \n  b");
    assert_eq!(indent_str("a\r\nb".to_string(), 1), " a\n b");
    assert_eq!(indent_str(String::new(), 4), "");
}

#[test]
fn indent_twice_adds_up() {
    let once = indent_str(indent_str("x\ny".to_string(), 2), 3);
    assert_eq!(once, indent_str("x\ny".to_string(), 5));
}

#[test]
fn case_conversions() {
    assert_eq!(snake_case("CrabyTest"), "craby_test");
    assert_eq!(snake_case("fast-calculator"), "fast_calculator");
    assert_eq!(kebab_case("CrabyTest"), "craby-test");
    assert_eq!(flat_case("CrabyTest"), "crabytest");
    assert_eq!(pascal_case("fast_calculator"), "FastCalculator");
    assert_eq!(pascal_case("CrabyTestSpec"), "CrabyTestSpec");
}

#[test]
fn string_helpers() {
    assert!(str_eq("abc", "abc"));
    assert!(!str_eq("abc", "abd"));
    assert!(starts_with_str("// Hash: 12", "// Hash: "));
    assert!(!starts_with_str("//", "// Hash: "));
    assert!(contains_str("a target/ b", "target/"));
    assert!(!contains_str("target", "target/"));
    assert_eq!(replace_str("a_b_c", "_", ""), "abc");
    assert_eq!(replace_str("aaa", "aa", "b"), "ba");
    assert_eq!(trim_str("  x y \n"), "x y");
    assert_eq!(split_str("25.1.2", '.'), vec!["25", "1", "2"]);
    assert_eq!(split_str("", '.'), vec![""]);
    assert_eq!(join_strings(&vec!["a".to_string(), "b".to_string()], ", "), "a, b");
    assert_eq!(decimal(0), "0");
    assert_eq!(decimal(1234), "1234");
}
