use zapretctl::menu::{parse_menu_choice, MenuChoice};

fn chars(s: &str) -> Vec<char> {
    s.chars().collect()
}

#[test]
fn menu_maps_the_six_options() {
    assert_eq!(parse_menu_choice(&chars("1\n")), MenuChoice::Install);
    assert_eq!(parse_menu_choice(&chars("2\n")), MenuChoice::Remove);
    assert_eq!(parse_menu_choice(&chars("3\n")), MenuChoice::Status);
    assert_eq!(parse_menu_choice(&chars("4\n")), MenuChoice::Diagnostics);
    assert_eq!(parse_menu_choice(&chars("5\n")), MenuChoice::CheckUpdates);
    assert_eq!(parse_menu_choice(&chars("6\n")), MenuChoice::Exit);
}

#[test]
fn menu_trims_surrounding_whitespace() {
    assert_eq!(parse_menu_choice(&chars(" 3 \r\n")), MenuChoice::Status);
    assert_eq!(parse_menu_choice(&chars("\t6\t")), MenuChoice::Exit);
}

#[test]
fn menu_rejects_everything_else() {
    assert_eq!(parse_menu_choice(&chars("7")), MenuChoice::Invalid);
    assert_eq!(parse_menu_choice(&chars("")), MenuChoice::Invalid);
    assert_eq!(parse_menu_choice(&chars("12")), MenuChoice::Invalid);
    assert_eq!(parse_menu_choice(&chars("install")), MenuChoice::Invalid);
}
