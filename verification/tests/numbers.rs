use nffray::text::{parse_u32, split_lines, tokenize};

#[test]
fn parse_u32_accepts_plain_and_signed() {
    assert_eq!(parse_u32(b"0"), Some(0));
    assert_eq!(parse_u32(b"42"), Some(42));
    assert_eq!(parse_u32(b"+123"), Some(123));
    assert_eq!(parse_u32(b"007"), Some(7));
    assert_eq!(parse_u32(b"4294967295"), Some(4294967295));
}

#[test]
fn parse_u32_rejects_bad_text() {
    assert_eq!(parse_u32(b""), None);
    assert_eq!(parse_u32(b"+"), None);
    assert_eq!(parse_u32(b"-1"), None);
    assert_eq!(parse_u32(b"4294967296"), None);
    assert_eq!(parse_u32(b"99999999999999999999"), None);
    assert_eq!(parse_u32(b"12a"), None);
    assert_eq!(parse_u32(b"1 2"), None);
}

#[test]
fn tokenize_splits_on_whitespace_runs() {
    let words = tokenize(b"  from\t1  2\r");
    assert_eq!(words, vec![b"from".to_vec(), b"1".to_vec(), b"2".to_vec()]);
    assert!(tokenize(b" \t ").is_empty());
    assert!(tokenize(b"").is_empty());
}

#[test]
fn split_lines_handles_final_newline() {
    let lines = split_lines(b"a\n\nbc");
    assert_eq!(lines, vec![b"a".to_vec(), b"".to_vec(), b"bc".to_vec()]);
    let lines = split_lines(b"a\n");
    assert_eq!(lines, vec![b"a".to_vec()]);
    assert!(split_lines(b"").is_empty());
}
