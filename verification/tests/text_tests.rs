use dragon_game::text::{
    append_str, decimal_chars, digit, pad_left_chars, string_from_chars, trim_end_chars,
    white_space,
};

fn s(chars: &[char]) -> String {
    chars.iter().collect()
}

#[test]
fn decimal_digits() {
    assert_eq!(s(&decimal_chars(0)), "0");
    assert_eq!(s(&decimal_chars(7)), "7");
    assert_eq!(s(&decimal_chars(10)), "10");
    assert_eq!(s(&decimal_chars(905)), "905");
    assert_eq!(s(&decimal_chars(u32::MAX)), "4294967295");
    assert_eq!(digit(9), '9');
}

#[test]
fn padding_to_width() {
    assert_eq!(s(&pad_left_chars(&vec!['7'], 3)), "  7");
    assert_eq!(s(&pad_left_chars(&vec!['4', '2'], 3)), " 42");
    assert_eq!(s(&pad_left_chars(&vec!['1', '2', '3', '4'], 3)), "1234");
    assert_eq!(s(&pad_left_chars(&Vec::new(), 2)), "  ");
}

#[test]
fn trailing_white_space_is_removed() {
    let mut chars: Vec<char> = "ab \t\n\u{3000}".chars().collect();
    trim_end_chars(&mut chars);
    assert_eq!(s(&chars), "ab");
    let mut inner: Vec<char> = " a b".chars().collect();
    trim_end_chars(&mut inner);
    assert_eq!(s(&inner), " a b");
    let mut blank: Vec<char> = "  \n".chars().collect();
    trim_end_chars(&mut blank);
    assert!(blank.is_empty());
    assert!(white_space('\u{2028}'));
    assert!(!white_space('x'));
}

#[test]
fn building_strings() {
    assert_eq!(string_from_chars(&vec!['h', 'i', '!']), "hi!");
    assert_eq!(string_from_chars(&Vec::new()), "");
    let mut chars = vec!['a'];
    append_str(&mut chars, "bç");
    assert_eq!(chars, vec!['a', 'b', 'ç']);
}
