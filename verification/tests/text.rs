use stricter::text::{push_decimal, push_spaces, str_eq};

#[test]
fn decimal_rendering() {
    let mut s = String::from("n=");
    push_decimal(&mut s, 0);
    push_spaces(&mut s, 1);
    push_decimal(&mut s, 1907);
    assert_eq!(s, "n=0 1907");
}

#[test]
fn string_equality() {
    assert!(str_eq("docker-test", "docker-test"));
    assert!(!str_eq("docker-test", "docker-tes"));
    assert!(!str_eq("abc", "abd"));
    assert!(str_eq("", ""));
}
