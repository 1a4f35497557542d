use double_states::text::parse_arbs;

fn strings(names: &[&str]) -> Vec<String> {
    names.iter().map(|name| name.to_string()).collect()
}

#[test]
fn parse_arbs_of_empty_string_is_one_empty_name() {
    assert_eq!(parse_arbs(""), strings(&[""]));
}

#[test]
fn parse_arbs_splits_and_trims() {
    assert_eq!(parse_arbs("A, B,C"), strings(&["A", "B", "C"]));
}

#[test]
fn parse_arbs_keeps_the_empty_name_behind_a_trailing_comma() {
    assert_eq!(parse_arbs("Idle,Error,"), strings(&["Idle", "Error", ""]));
}

#[test]
fn parse_arbs_trims_every_kind_of_whitespace() {
    assert_eq!(parse_arbs("\t A \n,\u{3000}B\u{a0}"), strings(&["A", "B"]));
}

#[test]
fn parse_arbs_keeps_inner_whitespace_and_order() {
    assert_eq!(parse_arbs(" a b ,, c"), strings(&["a b", "", "c"]));
}
