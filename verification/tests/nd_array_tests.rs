//! Tests of the dense n-dimensional array store.
use binned_stats::nd_array::{cells_of_shape, flat_index_of, NdArray};

#[test]
fn from_elem_fills_every_cell() {
    let a: NdArray<u64> = NdArray::from_elem(vec![2, 3], 7);
    assert_eq!(a.ndim(), 2);
    assert_eq!(*a.shape(), vec![2usize, 3usize]);
    assert_eq!(a.data().len(), 6);
    for cell in a.data() {
        assert_eq!(*cell, 7);
    }
}

#[test]
fn cells_are_stored_row_major() {
    let shape = vec![2usize, 3usize];
    assert_eq!(cells_of_shape(&shape), 6);
    assert_eq!(flat_index_of(&shape, &vec![0, 0]), 0);
    assert_eq!(flat_index_of(&shape, &vec![0, 2]), 2);
    assert_eq!(flat_index_of(&shape, &vec![1, 0]), 3);
    assert_eq!(flat_index_of(&shape, &vec![1, 2]), 5);
}

#[test]
fn set_replaces_only_the_addressed_cell() {
    let mut a: NdArray<u64> = NdArray::from_elem(vec![2, 2], 0);
    a.set(&vec![1, 0], 9);
    assert_eq!(*a.get(&vec![1, 0]), 9);
    assert_eq!(*a.get(&vec![0, 0]), 0);
    assert_eq!(*a.get(&vec![0, 1]), 0);
    assert_eq!(*a.get(&vec![1, 1]), 0);
}

#[test]
fn from_data_keeps_the_cells_in_order() {
    let a: NdArray<u64> = NdArray::from_data(vec![2, 2], vec![1, 2, 3, 4]);
    assert_eq!(*a.get(&vec![0, 0]), 1);
    assert_eq!(*a.get(&vec![0, 1]), 2);
    assert_eq!(*a.get(&vec![1, 0]), 3);
    assert_eq!(*a.get(&vec![1, 1]), 4);
    assert_eq!(*a.get_flat(3), 4);
}

#[test]
fn zero_length_axes_give_empty_arrays() {
    let a: NdArray<u64> = NdArray::from_elem(vec![3, 0, 2], 1);
    assert_eq!(a.data().len(), 0);
    assert_eq!(*a.shape(), vec![3usize, 0usize, 2usize]);
}
