use rkill::resolve::get_pid;

#[test]
fn resolve_bare_number() {
    assert_eq!(get_pid("12345"), Some(12345));
}

#[test]
fn resolve_row_second_token() {
    assert_eq!(get_pid("chrome        12345"), Some(12345));
}

#[test]
fn resolve_empty() {
    assert_eq!(get_pid(""), None);
}

#[test]
fn resolve_whitespace_only() {
    assert_eq!(get_pid("   "), None);
    assert_eq!(get_pid("\t \t"), None);
}

#[test]
fn resolve_splits_on_any_whitespace() {
    assert_eq!(get_pid("chrome\t42"), Some(42));
    assert_eq!(get_pid("name\n77"), Some(77));
    assert_eq!(get_pid("sshd \t 100"), Some(100));
}

#[test]
fn resolve_malformed_second_token() {
    assert_eq!(get_pid("abc def"), None);
}

#[test]
fn resolve_describe_literal() {
    assert_eq!(get_pid("-p 200"), Some(200));
}

#[test]
fn resolve_three_tokens_takes_second() {
    assert_eq!(get_pid("a 12 34"), Some(12));
}

#[test]
fn resolve_signs() {
    assert_eq!(get_pid("+7"), Some(7));
    assert_eq!(get_pid("-42"), Some(-42));
    assert_eq!(get_pid("+"), None);
    assert_eq!(get_pid("-"), None);
}

#[test]
fn resolve_leading_zeros() {
    assert_eq!(get_pid("007"), Some(7));
}

#[test]
fn resolve_range_edges() {
    assert_eq!(get_pid("2147483647"), Some(i32::MAX));
    assert_eq!(get_pid("2147483648"), None);
    assert_eq!(get_pid("-2147483648"), Some(i32::MIN));
    assert_eq!(get_pid("-2147483649"), None);
    assert_eq!(get_pid("99999999999999999999"), None);
}

#[test]
fn resolve_name_with_embedded_space_misfires() {
    // The arity rule picks the second token, so a name holding a space hides
    // the id: a known limitation of the row format, kept as it is.
    assert_eq!(get_pid("my app 300"), None);
}

#[test]
fn resolve_single_bad_token() {
    assert_eq!(get_pid("garbage"), None);
    assert_eq!(get_pid("12a"), None);
}
