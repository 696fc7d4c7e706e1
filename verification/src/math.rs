use vstd::prelude::*;

verus! {

/// A 3x3 matrix, stored row by row: the entry in row `i` and column `j`
/// is at position `3 * i + j`.
#[derive(Clone, Copy)]
pub struct Mat3<T>(pub [T; 9]);

/// The entry of a row-major 3x3 matrix in row `i` and column `j`.
pub open spec fn entry<T>(m: Seq<T>, i: int, j: int) -> T {
    m[3 * i + j]
}

/// The entries of the transpose of the row-major 3x3 matrix `m`.
pub open spec fn transposed<T>(m: Seq<T>) -> Seq<T> {
    Seq::new(9, |k: int| entry(m, k % 3, k / 3))
}

impl<T: Copy> Mat3<T> {
    /// The matrix whose entries, row by row, are the first nine of `vec`.
    pub fn from_slice(vec: &[T]) -> (m: Self)
        requires
            vec@.len() >= 9,
        ensures
            m.0@ == vec@.take(9),
    {
        let m = Mat3([vec[0], vec[1], vec[2], vec[3], vec[4], vec[5], vec[6], vec[7], vec[8]]);
        assert(m.0@ =~= vec@.take(9));
        m
    }

    /// The transpose: row `i`, column `j` of the result is row `j`,
    /// column `i` of `self`.
    pub fn transpose(self) -> (t: Self)
        ensures
            t.0@ == transposed(self.0@),
            forall|i: int, j: int| 0 <= i < 3 && 0 <= j < 3 ==> entry(t.0@, i, j) == entry(self.0@, j, i),
    {
        let a = self.0;
        let t = Mat3([a[0], a[3], a[6], a[1], a[4], a[7], a[2], a[5], a[8]]);
        assert(t.0@ =~= transposed(self.0@));
        t
    }
}

impl<T> Mat3<T> {
    /// The entry in row `ij.0` and column `ij.1`, found at position
    /// `3 * ij.0 + ij.1`.
    pub fn index(&self, ij: (usize, usize)) -> (e: &T)
        requires
            3 * ij.0 + ij.1 < 9,
        ensures
            *e == self.0@[3 * ij.0 + ij.1],
    {
        &self.0[3 * ij.0 + ij.1]
    }
}

/// Transposing twice gives back the matrix.
pub proof fn lemma_transpose_involution<T>(m: Seq<T>)
    requires
        m.len() == 9,
    ensures
        transposed(transposed(m)) == m,
{
    assert(transposed(transposed(m)) =~= m);
}

/// A vector of three coordinates.
#[derive(Clone, Copy)]
pub struct Vec3<T>(pub [T; 3]);

impl<T: Copy> Vec3<T> {
    /// The vector whose coordinates are the first three of `vec`.
    pub fn from_slice(vec: &[T]) -> (v: Self)
        requires
            vec@.len() >= 3,
        ensures
            v.0@ == vec@.take(3),
    {
        let v = Vec3([vec[0], vec[1], vec[2]]);
        assert(v.0@ =~= vec@.take(3));
        v
    }
}

impl<T> Vec3<T> {
    /// Coordinate `i`.
    pub fn index(&self, i: usize) -> (c: &T)
        requires
            i < 3,
        ensures
            *c == self.0@[i as int],
    {
        &self.0[i]
    }
}

/// The position and orientation of the robot or of a landmark.
#[derive(Clone, Copy)]
pub struct Pose<T> {
    pub rotation: Mat3<T>,
    pub translation: Vec3<T>,
}

} // verus!
