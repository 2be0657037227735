use ideomask::convert_and_decorate;

#[test]
fn single_segment_even_length() {
    let seps: Vec<char> = vec![];
    let r = convert_and_decorate("1234567890", &seps, "", "");
    assert_eq!(r, "12345六7890");
}

#[test]
fn split_contact_fallback_digits() {
    let seps: Vec<char> = vec![':'];
    let r = convert_and_decorate("Alice:0100", &seps, "", "");
    assert_eq!(r, "Alice:01零0");
}

#[test]
fn empty_value_keeps_decoration() {
    let seps: Vec<char> = vec!['-'];
    let r = convert_and_decorate("", &seps, "(", ")");
    assert_eq!(r, "()");
}

#[test]
fn no_digits_unchanged() {
    let seps: Vec<char> = vec!['-'];
    let r = convert_and_decorate("abc-def", &seps, "", "");
    assert_eq!(r, "abc-def");
}

#[test]
fn separator_as_first_character() {
    let seps: Vec<char> = vec![':'];
    let r = convert_and_decorate(":abc123", &seps, "", "");
    assert_eq!(r, ":abc1二3");
}

#[test]
fn separator_as_last_character() {
    let seps: Vec<char> = vec!['-'];
    let r = convert_and_decorate("123-", &seps, "", "");
    assert_eq!(r, "1二3-");
}

#[test]
fn first_of_several_separators_wins() {
    let seps: Vec<char> = vec![':', '-'];
    let r = convert_and_decorate("1-2:3", &seps, "", "");
    assert_eq!(r, "一-二:3");
}

#[test]
fn prefix_and_suffix_wrap_once() {
    let seps: Vec<char> = vec![];
    let r = convert_and_decorate("99", &seps, "[", "]");
    assert_eq!(r, "[9九]");
}

#[test]
fn second_pass_treats_ideograph_as_plain() {
    let seps: Vec<char> = vec![];
    let once = convert_and_decorate("1234567890", &seps, "", "");
    let twice = convert_and_decorate(&once, &seps, "", "");
    assert_eq!(twice, "1234五六7890");
}

#[test]
fn decoration_wraps_split_result_outermost() {
    let seps: Vec<char> = vec!['-'];
    let r = convert_and_decorate("1-2", &seps, "<", ">");
    assert_eq!(r, "<一-二>");
}

#[test]
fn digit_separator_is_kept_verbatim() {
    let seps: Vec<char> = vec!['1'];
    let r = convert_and_decorate("123", &seps, "", "");
    assert_eq!(r, "12三");
}

#[test]
fn empty_everything() {
    let seps: Vec<char> = vec![];
    let r = convert_and_decorate("", &seps, "", "");
    assert_eq!(r, "");
}
