use cgrustplot::array_plot::array_plot_string;
use cgrustplot::array_plot::array_plot_string_custom_chars;
use cgrustplot::array_plot::distinct_in_table;
use cgrustplot::array_plot::sorted_distinct;
use cgrustplot::helper::charset::gradient_chars::ascii_chars;
use cgrustplot::helper::charset::gradient_chars::shade_chars;
use cgrustplot::plots::array_plot::choose_charachter_set;

#[test]
fn array_plot_string_binary() {
    let arr = vec![vec![0, 0, 0], vec![0, 1, 0]];
    assert_eq!(array_plot_string(&arr), "   \n █ ");
}

#[test]
fn array_plot_string_three_values() {
    let arr = vec![vec![0, 1, 2]];
    assert_eq!(array_plot_string(&arr), " +@");
}

#[test]
fn array_plot_string_single_value() {
    let arr = vec![vec![7, 7], vec![7, 7]];
    assert_eq!(array_plot_string(&arr), "  \n  ");
}

#[test]
fn array_plot_string_custom_chars_grid() {
    let arr = vec![vec![1, 2], vec![3, 4]];
    let chrs = vec!["a", "b", "c", "d"];
    assert_eq!(array_plot_string_custom_chars(&arr, chrs), "ab\ncd");
}

#[test]
fn array_plot_string_custom_chars_spread() {
    let arr = vec![vec![10, 20]];
    let chrs = vec!["x", "y", "z"];
    assert_eq!(array_plot_string_custom_chars(&arr, chrs), "xz");
}

#[test]
fn distinct_in_table_first_occurrence() {
    let arr = vec![vec![3, 1, 3], vec![1, 2, 2]];
    assert_eq!(distinct_in_table(&arr), vec![3, 1, 2]);
}

#[test]
fn sorted_distinct_orders_and_dedups() {
    let v = vec![5, 2, 9, 2, 5];
    assert_eq!(sorted_distinct(&v), vec![2, 5, 9]);
}

#[test]
fn determine_char_set_by_count() {
    assert_eq!(choose_charachter_set(1).len(), 2);
    assert_eq!(choose_charachter_set(3), shade_chars());
    assert_eq!(choose_charachter_set(7), ascii_chars());
    assert_eq!(choose_charachter_set(100), ascii_chars());
}
