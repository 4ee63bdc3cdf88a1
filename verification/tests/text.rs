use qtex::text::{bytes_before, chars_of, decimal, same_text, text_of};

#[test]
fn chars_and_text_round_trip() {
    let chars = chars_of("héllo/wörld");
    assert_eq!(chars.len(), 11);
    assert_eq!(text_of(&chars, 0, chars.len()), "héllo/wörld");
    assert_eq!(text_of(&chars, 6, 11), "wörld");
    assert_eq!(text_of(&chars, 3, 3), "");
}

#[test]
fn same_text_compares_contents() {
    assert!(same_text("tex", "tex"));
    assert!(!same_text("tex", "TEX"));
    assert!(!same_text("tex", "te"));
    assert!(same_text("", ""));
}

#[test]
fn bytes_before_is_strict_byte_order() {
    assert!(bytes_before(b"a.tex", b"b.tex"));
    assert!(!bytes_before(b"b.tex", b"a.tex"));
    assert!(!bytes_before(b"a.tex", b"a.tex"));
    assert!(bytes_before(b"a", b"a.tex"));
    assert!(!bytes_before(b"a.tex", b"a"));
    assert!(bytes_before(b"", b"a"));
    assert!(!bytes_before(b"", b""));
    // upper case sorts before lower case: the order is by byte, not by letter
    assert!(bytes_before(b"Z.tex", b"a.tex"));
    assert!(bytes_before("z".as_bytes(), "é".as_bytes()));
}

#[test]
fn decimal_has_no_leading_zeros() {
    assert_eq!(decimal(0), "0");
    assert_eq!(decimal(7), "7");
    assert_eq!(decimal(10), "10");
    assert_eq!(decimal(842), "842");
    assert_eq!(decimal(4343), "4343");
    assert_eq!(decimal(u64::MAX), "18446744073709551615");
}
