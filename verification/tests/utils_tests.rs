use chat_history_manager::utils::{
    file_hash, file_hash_string, hash_string, hash_to_id, measure, ok, transpose_option_result,
    transpose_option_std_result, truncate_to, without_indices,
};

#[test]
fn ok_wraps_a_value() {
    let r: Result<i32, String> = ok(5);
    assert_eq!(r, Ok(5));
}

#[test]
fn optional_results_are_transposed() {
    assert_eq!(transpose_option_result::<i32, String>(None), Ok(None));
    assert_eq!(transpose_option_result::<i32, String>(Some(Ok(3))), Ok(Some(3)));
    assert_eq!(transpose_option_result::<i32, String>(Some(Err("e".to_owned()))), Err("e".to_owned()));
    assert_eq!(transpose_option_std_result::<i32, String>(Some(Ok(4))), Ok(Some(4)));
    assert_eq!(transpose_option_std_result::<i32, String>(Some(Err("x".to_owned()))), Err("x".to_owned()));
}

#[test]
fn listed_positions_are_removed() {
    assert_eq!(without_indices(vec!['a', 'b', 'c', 'd', 'e'], &[1, 3]), vec!['a', 'c', 'e']);
    assert_eq!(without_indices(vec![1, 2, 3], &[]), vec![1, 2, 3]);
    assert_eq!(without_indices(vec![1, 2, 3], &[0, 0, 7]), vec![2, 3]);
    assert_eq!(without_indices(Vec::<i32>::new(), &[0]), Vec::<i32>::new());
}

#[test]
fn strings_are_truncated_by_graphemes() {
    assert_eq!(truncate_to("hello".to_owned(), 3), "hel");
    assert_eq!(truncate_to("hello".to_owned(), 30), "hello");
    assert_eq!(truncate_to("hello".to_owned(), 0), "");
    // "e" followed by a combining acute accent is a single grapheme
    assert_eq!(truncate_to("e\u{301}ab".to_owned(), 1), "e\u{301}");
    // A family emoji is a single grapheme
    assert_eq!(truncate_to("\u{1F468}\u{200D}\u{1F469}\u{200D}\u{1F467}!".to_owned(), 1), "\u{1F468}\u{200D}\u{1F469}\u{200D}\u{1F467}");
}

#[test]
fn hash_strings_have_32_uppercase_hex_digits() {
    assert_eq!(hash_string(0xABC), "00000000000000000000000000000ABC");
    assert_eq!(hash_string(u128::MAX), "FFFFFFFFFFFFFFFFFFFFFFFFFFFFFFFF");
    assert_eq!(hash_string(0x0123456789ABCDEF_FEDCBA9876543210), "0123456789ABCDEFFEDCBA9876543210");
    let s = file_hash_string(&vec![b"some".to_vec(), b"content".to_vec()]);
    assert_eq!(s.len(), 32);
    assert!(s.chars().all(|c| c.is_ascii_digit() || ('A'..='F').contains(&c)));
}

#[test]
fn file_hash_depends_on_content() {
    let h1 = file_hash(&vec![b"abc".to_vec()]);
    let h2 = file_hash(&vec![b"abd".to_vec()]);
    let h1_again = file_hash(&vec![b"abc".to_vec()]);
    assert_ne!(h1, h2);
    assert_eq!(h1, h1_again);
    assert_eq!(hash_string(h1), file_hash_string(&vec![b"abc".to_vec()]));
}

#[test]
fn ids_from_hashes_are_not_negative() {
    for s in ["", "a", "some longer string", "\u{1F600}"] {
        assert!(hash_to_id(s) >= 0);
    }
    assert_eq!(hash_to_id("same"), hash_to_id("same"));
    assert_ne!(hash_to_id("one"), hash_to_id("two"));
}

#[test]
fn measure_reports_the_result() {
    let mut seen = None;
    let r = measure(|| 6 * 7, |res: &i32, _ms: u128| seen = Some(*res));
    assert_eq!(r, 42);
    assert_eq!(seen, Some(42));
}
