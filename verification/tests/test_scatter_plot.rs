use cgrustplot::helper::charset::subdiv_chars::dots_two_by_four;
use cgrustplot::plots::scatter_plot::bool_arr_plot_string_custom_charset;

#[test]
fn bool_arr_plot_test_1() {
    let range = (4, 3);
    let chrset = vec![' ', '#'];

    let arr = vec![
        vec![true, true, true, false],
        vec![true, true, false, true],
        vec![true, false, true, true],
    ];

    let res = bool_arr_plot_string_custom_charset(&arr, range, (chrset, (1, 1)));

    assert_eq!(res, "### \n## #\n# ##");
}

#[test]
fn bool_arr_plot_test_2() {
    let range = (4, 3);
    let chrset = vec![' ', 'l', 'r', 'b'];

    let arr = vec![
        vec![true, true, true, false],
        vec![true, true, false, true],
        vec![true, false, true, true],
    ];

    let res = bool_arr_plot_string_custom_charset(&arr, range, (chrset, (2, 1)));

    assert_eq!(res, "bl\nbr\nlb")
}

#[test]
fn bool_arr_plot_test_3() {
    let range = (3, 3);
    let chrset = vec![' ', 'l', 'r', 'b'];

    let arr = vec![vec![true, true, false], vec![true, false, true], vec![false, true, true]];

    let res = bool_arr_plot_string_custom_charset(&arr, range, (chrset, (2, 1)));
    println!("{}", res);

    assert_eq!(res, "b \nll\nrl")
}

#[test]
fn bool_arr_plot_test_4() {
    let range = (3, 3);
    let chrset = vec![' ', 'u', 'l', 'b'];

    let arr = vec![vec![true, true, false], vec![true, false, true], vec![false, true, true]];

    let res = bool_arr_plot_string_custom_charset(&arr, range, (chrset, (1, 2)));
    println!("{}", res);

    assert_eq!(res, "bul\n uu")
}

#[test]
fn bool_arr_plot_test_5() {
    let range = (3, 3);
    let chrset = dots_two_by_four();

    let arr = vec![vec![true, true, false], vec![true, false, true], vec![false, true, true]];

    let res = bool_arr_plot_string_custom_charset(&arr, range, (chrset, (2, 4)));
    println!("{}", res);

    assert_eq!(res, "⠫⠆")
}

#[test]
fn char_set_test_1() {
    // Unused -- only used for manually displaying and checking
    let chs = dots_two_by_four();
    (0..chs.len()).for_each(|i| println!("{:008b} | {}", i, chs[i]));
    assert!(true);
}
