use cgrustplot::helper::axes::add_title;
use cgrustplot::helper::axes::string_to_char_table;

#[test]
fn string_to_char_table_splits_lines() {
    let result = string_to_char_table("ab\nc");
    assert_eq!(result, vec![vec!['a', 'b'], vec!['c']]);
}

#[test]
fn string_to_char_table_keeps_empty_lines() {
    let result = string_to_char_table("a\n\nb\n");
    assert_eq!(result, vec![vec!['a'], vec![], vec!['b'], vec![]]);
}

#[test]
fn string_to_char_table_of_empty_string() {
    let result = string_to_char_table("");
    assert_eq!(result, vec![Vec::<char>::new()]);
}

#[test]
fn add_title_prepends_line() {
    let result = add_title(&String::from("body"), String::from("Title"));
    assert_eq!(result, "Title\nbody");
}
