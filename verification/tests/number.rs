use status_server::number::{read_i64, read_u64, read_usize, write_i64, write_u64};

#[test]
fn reading_agrees_with_the_standard_library() {
    let texts = [
        "", "+", "-", "0", "-0", "+0", "7", "007", "+12", "-12", "--1", "++1", "+-1", "1 ", " 1",
        "1_0", "0x1", "1.0", "\u{661}", "9223372036854775807", "9223372036854775808",
        "-9223372036854775808", "-9223372036854775809", "18446744073709551615",
        "18446744073709551616", "99999999999999999999999999999999999999999",
        "000000000000000000000000000000000000000005", "-", "abc", "12a",
        "184467440737095516150000000000000000000a",
    ];
    for text in texts {
        assert_eq!(read_u64(text), text.parse::<u64>().ok(), "{}", text);
        assert_eq!(read_i64(text), text.parse::<i64>().ok(), "{}", text);
        assert_eq!(read_usize(text), text.parse::<usize>().ok(), "{}", text);
    }
}

#[test]
fn writing_agrees_with_the_standard_library() {
    for n in [0, 1, 9, 10, 99, 100, 1234567890, u64::MAX] {
        assert_eq!(write_u64(n), n.to_string());
        assert_eq!(read_u64(&write_u64(n)), Some(n));
    }
    for n in [0, -1, 1, -10, 42, i64::MAX, i64::MIN, i64::MIN + 1] {
        assert_eq!(write_i64(n), n.to_string());
        assert_eq!(read_i64(&write_i64(n)), Some(n));
    }
}
