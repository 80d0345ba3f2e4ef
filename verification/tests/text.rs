use outbound::text::{chars_of, cut, position_of, same_name, to_lower};

#[test]
fn text_is_cut_by_characters() {
    assert_eq!(chars_of("aé名"), vec!['a', 'é', '名']);
    assert_eq!(cut("aé名b", 1, 3), "é名");
    assert_eq!(cut("abc", 0, 0), "");
    assert_eq!(cut("abc", 3, 3), "");
    assert_eq!(cut("abc", 0, 3), "abc");
}

#[test]
fn first_mark_is_found() {
    assert_eq!(position_of(&chars_of("a:b:c"), ':'), 1);
    assert_eq!(position_of(&chars_of("abc"), ':'), 3);
    assert_eq!(position_of(&chars_of(""), ':'), 0);
    assert_eq!(position_of(&chars_of("é:"), ':'), 1);
}

#[test]
fn ascii_letters_are_lowered() {
    assert_eq!(to_lower('A'), 'a');
    assert_eq!(to_lower('Z'), 'z');
    assert_eq!(to_lower('m'), 'm');
    assert_eq!(to_lower('@'), '@');
    assert_eq!(to_lower('['), '[');
    assert_eq!(to_lower('É'), 'É');
    assert_eq!(to_lower('-'), '-');
}

#[test]
fn names_are_the_same_but_for_case() {
    assert!(same_name(&chars_of("Content-Type"), &chars_of("content-type")));
    assert!(same_name(&chars_of(""), &chars_of("")));
    assert!(!same_name(&chars_of("a"), &chars_of("ab")));
    assert!(!same_name(&chars_of("a-b"), &chars_of("a_b")));
}
