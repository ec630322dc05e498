use together_rs::process::ProcessId;
use together_rs::text::{bytes_eq_ignore_ascii_case, decimal_string, str_eq, string_eq};

#[test]
fn decimal_zero() {
    assert_eq!(decimal_string(0), "0");
}

#[test]
fn decimal_single_digit() {
    assert_eq!(decimal_string(7), "7");
}

#[test]
fn decimal_multi_digit() {
    assert_eq!(decimal_string(105), "105");
    assert_eq!(decimal_string(4200), "4200");
}

#[test]
fn decimal_largest() {
    assert_eq!(decimal_string(u32::MAX), "4294967295");
}

#[test]
fn case_insensitive_byte_equality() {
    assert!(bytes_eq_ignore_ascii_case(b"WeB", b"web"));
    assert!(bytes_eq_ignore_ascii_case(b"", b""));
    assert!(!bytes_eq_ignore_ascii_case(b"web", b"webs"));
    assert!(!bytes_eq_ignore_ascii_case(b"web", b"wed"));
}

#[test]
fn string_comparisons() {
    assert!(str_eq("echo hi", "echo hi"));
    assert!(!str_eq("echo hi", "echo ho"));
    assert!(string_eq(&String::from("x"), &String::from("x")));
    assert!(!string_eq(&String::from("x"), &String::from("y")));
}

#[test]
fn process_id_display() {
    let id = ProcessId::new(3, String::from("echo hi"));
    assert_eq!(id.display_string(), "[3]: echo hi");
    assert_eq!(id.sequence(), 3);
    assert_eq!(id.command(), "echo hi");
}

#[test]
fn process_id_display_multidigit() {
    let id = ProcessId::new(1234, String::from("sleep 5"));
    assert_eq!(id.display_string(), "[1234]: sleep 5");
}

#[test]
fn process_id_equality() {
    let a = ProcessId::new(1, String::from("x"));
    let b = ProcessId::new(1, String::from("x"));
    let c = ProcessId::new(2, String::from("x"));
    let d = ProcessId::new(1, String::from("y"));
    assert!(a == b);
    assert!(a != c);
    assert!(a != d);
    assert_eq!(a.clone(), a);
}
