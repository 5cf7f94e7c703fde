//! Tensor shapes: lists of axis lengths, outermost axis first.

use vstd::prelude::*;

verus! {

/// A shape of rank two: a batch of rows, each with the same number of columns.
pub open spec fn is_matrix(shape: Seq<usize>) -> bool {
    shape.len() == 2
}

/// The shape of a matrix with `rows` rows and `cols` columns.
pub open spec fn matrix_of(rows: usize, cols: usize) -> Seq<usize> {
    seq![rows, cols]
}

/// The shape of a vector with `len` entries.
pub open spec fn vector_of(len: usize) -> Seq<usize> {
    seq![len]
}

/// Builds the shape of a matrix.
pub fn matrix(rows: usize, cols: usize) -> (shape: Vec<usize>)
    ensures
        shape@ == matrix_of(rows, cols),
{
    let mut shape: Vec<usize> = Vec::new();
    shape.push(rows);
    shape.push(cols);
    assert(shape@ =~= matrix_of(rows, cols));
    shape
}

/// Builds the shape of a vector.
pub fn vector(len: usize) -> (shape: Vec<usize>)
    ensures
        shape@ == vector_of(len),
{
    let mut shape: Vec<usize> = Vec::new();
    shape.push(len);
    assert(shape@ =~= vector_of(len));
    shape
}

/// Copies a shape.
pub fn copy_shape(shape: &Vec<usize>) -> (copy: Vec<usize>)
    ensures
        copy@ == shape@,
{
    let mut copy: Vec<usize> = Vec::new();
    let mut i: usize = 0;
    while i < shape.len()
        invariant
            i <= shape.len(),
            copy@ == shape@.take(i as int),
        decreases shape.len() - i,
    {
        copy.push(shape[i]);
        assert(shape@.take(i as int).push(shape@[i as int]) =~= shape@.take(i + 1));
        i += 1;
    }
    assert(shape@.take(shape@.len() as int) =~= shape@);
    copy
}

/// Tells whether two shapes have the same rank and the same length on every axis.
pub fn same_shape(a: &Vec<usize>, b: &Vec<usize>) -> (same: bool)
    ensures
        same == (a@ == b@),
{
    if a.len() != b.len() {
        return false;
    }
    let mut i: usize = 0;
    while i < a.len()
        invariant
            i <= a.len(),
            a.len() == b.len(),
            a@.take(i as int) == b@.take(i as int),
        decreases a.len() - i,
    {
        if a[i] != b[i] {
            return false;
        }
        assert(a@.take(i + 1) =~= a@.take(i as int).push(a@[i as int]));
        assert(b@.take(i + 1) =~= b@.take(i as int).push(b@[i as int]));
        i += 1;
    }
    assert(a@.take(a@.len() as int) =~= a@);
    assert(b@.take(b@.len() as int) =~= b@);
    true
}

/// Tells whether a shape is the matrix shape with the given rows and columns.
pub fn is_matrix_of(shape: &Vec<usize>, rows: usize, cols: usize) -> (yes: bool)
    ensures
        yes == (shape@ == matrix_of(rows, cols)),
{
    if shape.len() == 2 && shape[0] == rows && shape[1] == cols {
        assert(shape@ =~= matrix_of(rows, cols));
        true
    } else {
        false
    }
}

/// Tells whether a shape is the vector shape with the given length.
pub fn is_vector_of(shape: &Vec<usize>, len: usize) -> (yes: bool)
    ensures
        yes == (shape@ == vector_of(len)),
{
    if shape.len() == 1 && shape[0] == len {
        assert(shape@ =~= vector_of(len));
        true
    } else {
        false
    }
}

} // verus!
