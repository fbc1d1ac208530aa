use zapretctl::discovery::{
    extract_arguments, filter_candidates, is_eligible_config, parse_selection,
    validate_selection,
};

fn chars(s: &str) -> Vec<char> {
    s.chars().collect()
}

fn listing(names: &[&str]) -> Vec<Vec<char>> {
    names.iter().map(|n| chars(n)).collect()
}

#[test]
fn candidates_exclude_reserved_prefix() {
    let names = listing(&[
        "service_install.bat",
        "config.bat",
        "readme.txt",
        "servicefoo.bat",
        "general.bat",
        "service.bat",
    ]);
    let got = filter_candidates(&names);
    assert_eq!(got, listing(&["config.bat", "general.bat"]));
}

#[test]
fn candidates_need_extension_and_stem() {
    assert!(is_eligible_config(&chars("a.bat")));
    assert!(!is_eligible_config(&chars(".bat")));
    assert!(!is_eligible_config(&chars("a.BAT")));
    assert!(!is_eligible_config(&chars("a.bats")));
    assert!(!is_eligible_config(&chars("bat")));
    assert!(!is_eligible_config(&chars("serviceextra.bat")));
}

#[test]
fn candidates_keep_directory_order() {
    let names = listing(&["z.bat", "a.bat", "m.bat"]);
    let got = filter_candidates(&names);
    assert_eq!(got, listing(&["z.bat", "a.bat", "m.bat"]));
}

#[test]
fn extraction_takes_arguments_after_worker() {
    let content = chars("winws.exe -a -b -c \n");
    let got = extract_arguments(&content, &chars("winws.exe"));
    assert_eq!(got, chars("-a -b -c"));
}

#[test]
fn extraction_ignores_second_occurrence() {
    let content = chars(
        "start \"\" winws.exe -a -b -c \nrem another line\nstart \"\" winws.exe -x -y \n",
    );
    let got = extract_arguments(&content, &chars("winws.exe"));
    assert_eq!(got, chars("-a -b -c"));
}

#[test]
fn extraction_stops_at_line_end() {
    let content = chars("winws.exe -first\n-second\n");
    let got = extract_arguments(&content, &chars("winws.exe"));
    assert_eq!(got, chars("-first"));
}

#[test]
fn extraction_works_without_trailing_newline() {
    let content = chars("winws.exe -a");
    assert_eq!(extract_arguments(&content, &chars("winws.exe")), chars("-a"));
}

#[test]
fn extraction_without_keyword_is_empty() {
    let content = chars("echo nothing to see here\n");
    let got = extract_arguments(&content, &chars("winws.exe"));
    assert_eq!(got, chars(""));
}

#[test]
fn selection_parses_trimmed_decimal() {
    assert_eq!(parse_selection(&chars(" 2 \n")), 2);
    assert_eq!(parse_selection(&chars("1")), 1);
    assert_eq!(parse_selection(&chars("10\r\n")), 10);
    assert_eq!(parse_selection(&chars("+7")), 7);
}

#[test]
fn selection_rejects_junk_as_zero() {
    assert_eq!(parse_selection(&chars("abc")), 0);
    assert_eq!(parse_selection(&chars("")), 0);
    assert_eq!(parse_selection(&chars("1 2")), 0);
    assert_eq!(parse_selection(&chars("-1")), 0);
    assert_eq!(parse_selection(&chars("++2")), 0);
    assert_eq!(parse_selection(&chars("+")), 0);
    assert_eq!(parse_selection(&chars("+ 2")), 0);
    assert_eq!(parse_selection(&chars("99999999999999999999999999999")), 0);
}

#[test]
fn selection_bounds_are_one_based() {
    assert_eq!(validate_selection(1, 3), Some(0));
    assert_eq!(validate_selection(3, 3), Some(2));
    assert_eq!(validate_selection(0, 3), None);
    assert_eq!(validate_selection(4, 3), None);
    assert_eq!(validate_selection(1, 0), None);
}
