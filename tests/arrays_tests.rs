use fixed_grid::{init, init_all_with, Array};

#[test]
fn construct_pads_short_rows_with_zero() {
    let a = Array::new(vec![vec![1u64, 2], vec![3]], 2, 3);
    assert_eq!(a.data, vec![vec![1, 2, 0], vec![3, 0, 0]]);
    assert_eq!(a.rows(), 2);
    assert_eq!(a.columns(), 3);
}

#[test]
fn init_pads_strings_and_keeps_full_rows() {
    let a = init(
        vec![
            vec!["a".to_string()],
            vec!["b".to_string(), "c".to_string(), "d".to_string()],
        ],
        3,
    );
    assert_eq!(
        a.data[0],
        vec!["a".to_string(), String::new(), String::new()]
    );
    assert_eq!(
        a.data[1],
        vec!["b".to_string(), "c".to_string(), "d".to_string()]
    );
    assert_eq!(a.dims(), (2, 3));
}

#[test]
fn init_all_with_cells_are_independent() {
    let mut a = init_all_with(0i32, 2, 2);
    assert_eq!(a.data, vec![vec![0, 0], vec![0, 0]]);
    a.data[0][0] = 9;
    assert_eq!(a.data[0][1], 0);
    assert_eq!(a.data[1][0], 0);
    assert_eq!(a.data[1][1], 0);
}

#[test]
fn init_all_with_heap_values_are_independent() {
    let mut a = init_all_with(vec![1u8], 2, 3);
    a.set(0, 0, vec![5, 6]);
    assert_eq!(a.get(0, 0), &vec![5, 6]);
    for i in 0..2 {
        for j in 0..3 {
            if (i, j) != (0, 0) {
                assert_eq!(a.get(i, j), &vec![1u8]);
            }
        }
    }
}

#[test]
fn construct_empty_input() {
    let a: Array<u64> = Array::new(vec![], 0, 5);
    assert!(a.data.is_empty());
    assert_eq!(a.rows(), 0);
    assert_eq!(a.columns(), 5);
}

#[test]
fn construct_never_truncates_long_rows() {
    let a = Array::new(vec![vec![1u64, 2, 3, 4], vec![5]], 2, 2);
    assert_eq!(a.data, vec![vec![1, 2, 3, 4], vec![5, 0]]);
}

#[test]
fn construct_does_not_alias_input() {
    let items = vec![vec![String::from("x")], vec![]];
    let mut a = Array::new(items.clone(), 2, 2);
    a.data[0][0].push('y');
    a.set(1, 1, String::from("z"));
    assert_eq!(items, vec![vec![String::from("x")], vec![]]);
    assert_eq!(a.data[0], vec![String::from("xy"), String::new()]);
    assert_eq!(a.data[1], vec![String::new(), String::from("z")]);
}

#[test]
fn dims_are_declared_metadata() {
    let a = Array::new(vec![vec![1u64, 2, 3]], 4, 1);
    assert_eq!(a.dims(), (a.rows(), a.columns()));
    assert_eq!(a.dims(), (4, 1));
    assert_eq!(a.data.len(), 1);
}

#[test]
fn zero_columns_leaves_rows_as_given() {
    let a = init(vec![vec![7u64], vec![]], 0);
    assert_eq!(a.data, vec![vec![7], vec![]]);
    assert_eq!(a.dims(), (2, 0));
}

#[test]
fn set_replaces_one_cell() {
    let mut a = init(vec![vec![1u64, 2], vec![3, 4]], 2);
    a.set(1, 0, 8);
    assert_eq!(a.data, vec![vec![1, 2], vec![8, 4]]);
    assert_eq!(*a.get(1, 0), 8);
    assert_eq!(a.dims(), (2, 2));
}
