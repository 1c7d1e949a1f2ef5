use devzen_bots::text::{
    chars_of, concat_four, decimal_of, find_from, join_with, lines_of, split_at_each, str_eq,
};

#[test]
fn split_keeps_empty_pieces() {
    assert_eq!(split_at_each("", '\n'), vec![""]);
    assert_eq!(split_at_each("a\n\nb\n", '\n'), vec!["a", "", "b", ""]);
}

#[test]
fn join_undoes_split() {
    for s in ["", "\n", "a", "a\nb", "\n\na\n", "ж\nэ"] {
        assert_eq!(join_with(&split_at_each(s, '\n'), "\n"), s);
    }
}

#[test]
fn split_undoes_join() {
    let list = vec!["a".to_string(), "".to_string(), "b c".to_string()];
    assert_eq!(split_at_each(&join_with(&list, "\n"), '\n'), list);
    assert_eq!(join_with(&Vec::new(), "\n"), "");
}

#[test]
fn lines_are_those_of_std() {
    for s in [
        "", "\n", "a", "a\n", "a\n\n", "a\r\nb", "a\r\r\nb\r", "\r\n", "\r", "\n\r\n", "a\n\nb", "я\r\nю\n",
    ] {
        let expected: Vec<&str> = s.lines().collect();
        assert_eq!(lines_of(s), expected, "{:?}", s);
    }
}

#[test]
fn decimal_form() {
    for n in [0u64, 9, 10, 99, 100, 407, 3000, u64::MAX] {
        assert_eq!(decimal_of(n), n.to_string());
    }
}

#[test]
fn finding() {
    let s = chars_of("abcabc");
    assert_eq!(find_from(&s, &chars_of("bc"), 0), Some(1));
    assert_eq!(find_from(&s, &chars_of("bc"), 2), Some(4));
    assert_eq!(find_from(&s, &chars_of("bc"), 5), None);
    assert_eq!(find_from(&s, &chars_of(""), 6), Some(6));
}

#[test]
fn equality_and_concatenation() {
    assert!(str_eq("a", "a"));
    assert!(!str_eq("a", "A"));
    assert_eq!(concat_four("a", "b", "", "c"), "abc");
}
