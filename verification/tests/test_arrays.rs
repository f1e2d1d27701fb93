use cgrustplot::helper::arrays::pad_table;
use cgrustplot::helper::arrays::pad_vec_to;
use cgrustplot::helper::arrays::padded_vec_to;
use cgrustplot::helper::arrays::transpose_table;

#[test]
fn pad_table_test_1() {
    let tab = vec![vec![0, 1, 2], vec![2, 3, 4]];
    let left = pad_table(&tab, 9, ((1, 2), (3, 4)));
    let right = vec![
        vec![9, 9, 9, 9, 9, 9],
        vec![9, 9, 9, 9, 9, 9],
        vec![9, 9, 9, 9, 9, 9],
        vec![9, 0, 1, 2, 9, 9],
        vec![9, 2, 3, 4, 9, 9],
        vec![9, 9, 9, 9, 9, 9],
        vec![9, 9, 9, 9, 9, 9],
        vec![9, 9, 9, 9, 9, 9],
        vec![9, 9, 9, 9, 9, 9],
    ];

    println!("{:?}", right);

    assert_eq!(left, right)
}

#[test]
fn pad_table_crops_with_negative_padding() {
    let tab = vec![vec![1, 2, 3], vec![4, 5, 6]];
    let left = pad_table(&tab, 0, ((-1, 0), (0, -1)));
    assert_eq!(left, vec![vec![2, 3]]);
}

#[test]
fn transpose_table_small() {
    let binding = vec![vec![1, 2, 3], vec![4, 5, 6], vec![7, 8, 9]];
    let result = transpose_table(&binding);
    assert_eq!(result, vec![vec![&1, &4, &7], vec![&2, &5, &8], vec![&3, &6, &9]]);
}

#[test]
fn pad_vec_to_extends_in_place() {
    let mut result = vec![1, 2, 3];
    pad_vec_to(&mut result, 5, 0);
    assert_eq!(result, vec![1, 2, 3, 0, 0]);
}

#[test]
fn padded_vec_to_extends() {
    let result = padded_vec_to(vec![1, 2, 3], 5, 0);
    assert_eq!(result, vec![1, 2, 3, 0, 0]);
}
