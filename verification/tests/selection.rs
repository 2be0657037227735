use ideomask::{convert_and_decorate, convert_segment, map_digit};

#[test]
fn every_digit_maps_to_its_ideograph() {
    let pairs = vec![
        ('0', '零'),
        ('1', '一'),
        ('2', '二'),
        ('3', '三'),
        ('4', '四'),
        ('5', '五'),
        ('6', '六'),
        ('7', '七'),
        ('8', '八'),
        ('9', '九'),
    ];
    for (digit, ideograph) in pairs {
        assert_eq!(map_digit(digit), ideograph);
        let seps: Vec<char> = vec![];
        let input: String = digit.to_string();
        let expected: String = ideograph.to_string();
        assert_eq!(convert_and_decorate(&input, &seps, "", ""), expected);
    }
}

#[test]
fn non_digit_passes_through_mapper() {
    assert_eq!(map_digit('x'), 'x');
    assert_eq!(map_digit(':'), ':');
}

#[test]
fn single_non_digit_unchanged() {
    let seps: Vec<char> = vec![];
    assert_eq!(convert_and_decorate("x", &seps, "", ""), "x");
}

#[test]
fn preferred_digit_beats_more_central_trivial_digit() {
    let seps: Vec<char> = vec![];
    assert_eq!(convert_and_decorate("0102", &seps, "", ""), "010二");
}

#[test]
fn fallback_picks_most_central_zero() {
    let seps: Vec<char> = vec![];
    assert_eq!(convert_and_decorate("000", &seps, "", ""), "0零0");
}

#[test]
fn equidistant_tie_goes_to_smaller_index() {
    let seps: Vec<char> = vec![];
    assert_eq!(convert_and_decorate("x2x3", &seps, "", ""), "x二x3");
}

#[test]
fn odd_length_picks_exact_center() {
    let seps: Vec<char> = vec![];
    assert_eq!(convert_and_decorate("2x5x", &seps, "", ""), "2x五x");
}

#[test]
fn convert_segment_replaces_one_character() {
    let input: Vec<char> = vec!['a', 'b', '1', '7'];
    let output = convert_segment(&input);
    assert_eq!(output, vec!['a', 'b', '1', '七']);
}

#[test]
fn convert_segment_of_empty_is_empty() {
    let input: Vec<char> = vec![];
    let output = convert_segment(&input);
    assert_eq!(output, Vec::<char>::new());
}

#[test]
fn output_length_adds_prefix_value_suffix() {
    let seps: Vec<char> = vec![':'];
    let value = "Alice:0100";
    let prefix = "<<";
    let suffix = ">";
    let r = convert_and_decorate(value, &seps, prefix, suffix);
    assert_eq!(
        r.chars().count(),
        prefix.chars().count() + value.chars().count() + suffix.chars().count()
    );
}

#[test]
fn exactly_one_character_differs() {
    let seps: Vec<char> = vec![];
    let value = "a1b2c3";
    let r = convert_and_decorate(value, &seps, "", "");
    let before: Vec<char> = value.chars().collect();
    let after: Vec<char> = r.chars().collect();
    assert_eq!(before.len(), after.len());
    let differing = before.iter().zip(after.iter()).filter(|(b, a)| b != a).count();
    assert_eq!(differing, 1);
}
