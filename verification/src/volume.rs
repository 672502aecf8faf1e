//! A cubic grid of fixed edge length, with indexed access and iteration.
use vstd::prelude::*;
use vstd::std_specs::iter::IteratorSpec;
use crate::traversal::VolumeIdx;
use crate::traversal::in_bounds;
use crate::traversal::volume_len;
use crate::traversal::rank;
use crate::traversal::index_at;
use crate::traversal::volume_indices;
use crate::traversal::lemma_rank_bound;
use crate::traversal::lemma_index_at_rank;

verus! {

/// 3 dimensional volume of data: `SIZE * SIZE * SIZE` cells of `T`.
pub struct Volume<T, const SIZE: usize>([[[T; SIZE]; SIZE]; SIZE]);

/// Iterator over the cells of a volume, each with its index.
pub struct VolumeIterator<'volume, T, const SIZE: usize> {
    vol: &'volume Volume<T, SIZE>,
    idx: VolumeIdx,
}

/// Iterator over the indices of a volume. It borrows nothing, so the volume
/// can be changed while it runs.
pub struct VolumeIndexIterator<const SIZE: usize>(VolumeIdx);

/// Whether a cursor is a state that the traversal of a grid of edge length
/// `size` passes through: a cell of the grid, or the end.
pub open spec fn cursor_valid(size: usize, idx: VolumeIdx) -> bool {
    if idx.2 < size {
        idx.0 < size && idx.1 < size
    } else {
        idx == (0usize, 0usize, size)
    }
}

/// The cursor that follows `idx` in the traversal.
pub open spec fn cursor_step(size: usize, idx: VolumeIdx) -> VolumeIdx {
    if idx.0 + 1 < size {
        ((idx.0 + 1) as usize, idx.1, idx.2)
    } else if idx.1 + 1 < size {
        (0, (idx.1 + 1) as usize, idx.2)
    } else {
        (0, 0, (idx.2 + 1) as usize)
    }
}

/// Stepping from a cell of the grid gives a valid cursor whose place is one
/// further.
proof fn lemma_cursor_step(size: usize, idx: VolumeIdx)
    requires
        in_bounds(size, idx),
    ensures
        cursor_valid(size, cursor_step(size, idx)),
        rank(size, cursor_step(size, idx)) == rank(size, idx) + 1,
{
    let n = size as int;
    let x = idx.0 as int;
    let y = idx.1 as int;
    let z = idx.2 as int;
    let next = cursor_step(size, idx);
    if x + 1 < n {
    } else if y + 1 < n {
        assert(next == (0usize, (y + 1) as usize, idx.2));
        assert(n * (y + 1) == n * y + n) by (nonlinear_arith);
    } else {
        assert(next == (0usize, 0usize, (z + 1) as usize));
        assert(n * 0 == 0) by (nonlinear_arith);
        assert(n * n * (z + 1) == n * n * z + n * n) by (nonlinear_arith);
        assert(n * y == n * n - n) by (nonlinear_arith)
            requires
                y == n - 1,
        ;
    }
}

/// A valid cursor is at the end exactly when as many cells lie before it as
/// the grid has.
proof fn lemma_cursor_place(size: usize, idx: VolumeIdx)
    requires
        cursor_valid(size, idx),
    ensures
        rank(size, idx) <= volume_len(size),
        idx.2 < size <==> rank(size, idx) < volume_len(size),
        idx.2 < size ==> index_at(size, rank(size, idx)) == idx,
{
    if idx.2 < size {
        lemma_rank_bound(size, idx);
        lemma_index_at_rank(size, idx);
    } else {
        let n = size as int;
        assert(idx == (0usize, 0usize, size));
        assert(n * 0 == 0) by (nonlinear_arith);
        assert(rank(size, idx) == n * n * n);
        assert(volume_len(size) == n * n * n);
    }
}

/// The indices of a grid of edge length `size` from place `from` on, in
/// traversal order.
pub open spec fn indices_from(size: usize, from: nat) -> Seq<VolumeIdx> {
    Seq::new((volume_len(size) - from) as nat, |i: int| index_at(size, (from + i) as nat))
}

/// Dropping the first of the indices from a place on leaves those from the
/// next place on.
proof fn lemma_indices_from_step(size: usize, from: nat)
    requires
        from < volume_len(size),
    ensures
        indices_from(size, from).drop_first() == indices_from(size, from + 1),
        indices_from(size, from)[0] == index_at(size, from),
{
    assert(indices_from(size, from).drop_first() =~= indices_from(size, from + 1));
}

impl<T, const SIZE: usize> core::ops::Index<VolumeIdx> for Volume<T, SIZE> {
    type Output = T;

    /// The cell at `idx`.
    #[inline]
    fn index(&self, idx: VolumeIdx) -> (item: &T)
        ensures
            *item == self[idx],
    {
        &self.0[idx.0][idx.1][idx.2]
    }
}

impl<T, const SIZE: usize> vstd::std_specs::core::IndexSpecImpl<VolumeIdx> for Volume<T, SIZE> {
    open spec fn index_req(&self, idx: &VolumeIdx) -> bool {
        in_bounds(SIZE, *idx)
    }
}

impl<T, const SIZE: usize> core::ops::IndexMut<VolumeIdx> for Volume<T, SIZE> {
    /// The cell at `idx`, for writing. What is written there is read back
    /// from there, and no other cell changes.
    #[inline]
    fn index_mut(&mut self, idx: VolumeIdx) -> (item: &mut T)
        requires
            in_bounds(SIZE, idx),
        ensures
            *item == old(self)[idx],
            final(self)[idx] == *final(item),
            forall|other: VolumeIdx|
                in_bounds(SIZE, other) && other != idx ==> #[trigger] final(self)[other] == old(self)[other],
    {
        &mut self.0[idx.0][idx.1][idx.2]
    }
}

impl<T, const SIZE: usize> From<[[[T; SIZE]; SIZE]; SIZE]> for Volume<T, SIZE> {
    fn from(arr: [[[T; SIZE]; SIZE]; SIZE]) -> (vol: Self) {
        Volume(arr)
    }
}

impl<T, const SIZE: usize> vstd::std_specs::convert::FromSpecImpl<[[[T; SIZE]; SIZE]; SIZE]> for Volume<T, SIZE> {
    open spec fn obeys_from_spec() -> bool {
        true
    }

    closed spec fn from_spec(arr: [[[T; SIZE]; SIZE]; SIZE]) -> Self {
        Volume(arr)
    }
}

impl<T, const SIZE: usize> From<Volume<T, SIZE>> for [[[T; SIZE]; SIZE]; SIZE] {
    fn from(vol: Volume<T, SIZE>) -> (arr: Self) {
        vol.0
    }
}

impl<T, const SIZE: usize> vstd::std_specs::convert::FromSpecImpl<Volume<T, SIZE>> for [[[T; SIZE]; SIZE]; SIZE] {
    open spec fn obeys_from_spec() -> bool {
        true
    }

    closed spec fn from_spec(vol: Volume<T, SIZE>) -> Self {
        vol.0
    }
}

impl<T, const SIZE: usize> Volume<T, SIZE> {
    /// The cell at `idx`, written `self[idx]` in contracts. It says
    /// nothing of an index outside the volume.
    pub closed spec fn spec_index(&self, idx: VolumeIdx) -> T {
        self.0[idx.0 as int][idx.1 as int][idx.2 as int]
    }

    /// A volume made from nested arrays holds `arr[x][y][z]` at `(x, y, z)`,
    /// and the arrays taken back out of a volume hold its cells the same way.
    pub proof fn lemma_array_cells(arr: [[[T; SIZE]; SIZE]; SIZE], idx: VolumeIdx)
        requires
            in_bounds(SIZE, idx),
        ensures
            <Self as vstd::std_specs::convert::FromSpec<[[[T; SIZE]; SIZE]; SIZE]>>::from_spec(arr)[idx]
                == arr[idx.0 as int][idx.1 as int][idx.2 as int],
            <[[[T; SIZE]; SIZE]; SIZE] as vstd::std_specs::convert::FromSpec<Self>>::from_spec(
                <Self as vstd::std_specs::convert::FromSpec<[[[T; SIZE]; SIZE]; SIZE]>>::from_spec(arr),
            ) == arr,
    {
    }

    /// Two volumes that hold the same value in every cell are equal.
    pub proof fn lemma_ext_equal(self, other: Self)
        requires
            forall|idx: VolumeIdx| in_bounds(SIZE, idx) ==> self[idx] == other[idx],
        ensures
            self == other,
    {
        assert forall|x: int| 0 <= x < SIZE implies self.0[x] == other.0[x] by {
            assert forall|y: int| 0 <= y < SIZE implies self.0[x][y] == other.0[x][y] by {
                assert forall|z: int| 0 <= z < SIZE implies self.0[x][y][z] == other.0[x][y][z] by {
                    let idx = (x as usize, y as usize, z as usize);
                    assert(self[idx] == other[idx]);
                }
                assert(self.0[x][y] =~= other.0[x][y]);
            }
            assert(self.0[x] =~= other.0[x]);
        }
        assert(self.0 =~= other.0);
    }

    /// The cells of the volume from place `from` of the traversal on, each
    /// with its index.
    pub open spec fn cells_from(&self, from: nat) -> Seq<(VolumeIdx, &T)> {
        Seq::new(
            (volume_len(SIZE) - from) as nat,
            |i: int| (index_at(SIZE, (from + i) as nat), &self[index_at(SIZE, (from + i) as nat)]),
        )
    }

    /// Dropping the first of the cells from a place on leaves those from the
    /// next place on.
    proof fn lemma_cells_from_step(&self, from: nat)
        requires
            from < volume_len(SIZE),
        ensures
            self.cells_from(from).drop_first() == self.cells_from(from + 1),
            self.cells_from(from)[0] == (index_at(SIZE, from), &self[index_at(SIZE, from)]),
    {
        assert(self.cells_from(from).drop_first() =~= self.cells_from(from + 1));
    }

    /// The traversal of the cells visits the indices in the order of the
    /// traversal of the indices: as many, and at every place the same.
    pub proof fn lemma_cells_follow_indices(&self)
        ensures
            self.cells_from(0).len() == volume_indices(SIZE).len(),
            forall|k: int|
                0 <= k < volume_indices(SIZE).len() ==> (#[trigger] self.cells_from(0)[k]).0 == volume_indices(
                    SIZE,
                )[k] && *self.cells_from(0)[k].1 == self[volume_indices(SIZE)[k]],
    {
    }

    /// A volume with `item` in every cell.
    pub fn filled(item: T) -> (vol: Self) where T: Copy
        ensures
            forall|idx: VolumeIdx| in_bounds(SIZE, idx) ==> #[trigger] vol[idx] == item,
    {
        Volume([[[item; SIZE]; SIZE]; SIZE])
    }

    /// A fresh traversal of the cells: every cell once, each with its index,
    /// in traversal order.
    pub fn iter(&self) -> (it: VolumeIterator<'_, T, SIZE>)
        ensures
            it.volume() == *self,
            it.yielded() == 0,
            it.remaining() == self.cells_from(0),
    {
        VolumeIterator { vol: self, idx: (0, 0, 0) }
    }

    /// A fresh traversal of the indices: the indices that `iter` yields, in
    /// the same order.
    pub fn iter_indices(&self) -> (it: VolumeIndexIterator<SIZE>)
        ensures
            it.yielded() == 0,
            it.remaining() == volume_indices(SIZE),
    {
        assert(indices_from(SIZE, 0) =~= volume_indices(SIZE));
        VolumeIndexIterator((0, 0, 0))
    }

    /// The cell at `idx`, or `None` where an offset of `idx` is `SIZE` or
    /// more.
    pub fn get(&self, idx: VolumeIdx) -> (item: Option<&T>)
        ensures
            in_bounds(SIZE, idx) ==> item == Some(&self[idx]),
            !in_bounds(SIZE, idx) ==> item is None,
    {
        if idx.0 >= SIZE || idx.1 >= SIZE || idx.2 >= SIZE {
            None
        } else {
            Some(&self[idx])
        }
    }
}

impl<'volume, T, const SIZE: usize> VolumeIterator<'volume, T, SIZE> {
    #[verifier::type_invariant]
    spec fn cursor_inv(self) -> bool {
        cursor_valid(SIZE, self.idx)
    }

    /// The volume that is traversed.
    pub closed spec fn volume(&self) -> Volume<T, SIZE> {
        *self.vol
    }

    /// Number of cells that the traversal has already handed out.
    pub closed spec fn yielded(&self) -> nat {
        rank(SIZE, self.idx)
    }

    /// What the traversal will still hand out: the cells of the volume from
    /// the place that it has reached.
    pub proof fn lemma_remaining(&self)
        ensures
            self.remaining() == self.volume().cells_from(self.yielded()),
    {
    }
}

impl<'volume, T, const SIZE: usize> Iterator for VolumeIterator<'volume, T, SIZE> {
    type Item = (VolumeIdx, &'volume T);

    /// The next cell of the traversal with its index, or `None` at the end.
    /// By the contract of `Iterator::next` the cell is the first of
    /// `remaining()`, and the others remain.
    fn next(&mut self) -> (item: Option<(VolumeIdx, &'volume T)>)
        ensures
            final(self).volume() == old(self).volume(),
            item is Some ==> final(self).yielded() == old(self).yielded() + 1,
            item is None ==> final(self).yielded() == old(self).yielded(),
            final(self).yielded() <= volume_len(SIZE),
    {
        proof {
            use_type_invariant(&*self);
            lemma_cursor_place(SIZE, self.idx);
        }
        let (x, y, z) = self.idx;
        if z >= SIZE {
            return None;
        }
        let item = &self.vol[(x, y, z)];
        let mut nx = x + 1;
        let mut ny = y;
        let mut nz = z;
        if nx >= SIZE {
            nx = 0;
            ny += 1;
        }
        if ny >= SIZE {
            ny = 0;
            nz += 1;
        }
        proof {
            lemma_cursor_step(SIZE, (x, y, z));
            lemma_cursor_place(SIZE, (nx, ny, nz));
            self.vol.lemma_cells_from_step(rank(SIZE, (x, y, z)));
        }
        self.idx = (nx, ny, nz);
        Some(((x, y, z), item))
    }
}

impl<'volume, T, const SIZE: usize> vstd::std_specs::iter::IteratorSpecImpl for VolumeIterator<'volume, T, SIZE> {
    open spec fn obeys_prophetic_iter_laws(&self) -> bool {
        true
    }

    closed spec fn remaining(&self) -> Seq<(VolumeIdx, &'volume T)> {
        self.vol.cells_from(self.yielded())
    }

    open spec fn will_return_none(&self) -> bool {
        true
    }

    closed spec fn decrease(&self) -> Option<nat> {
        Some((volume_len(SIZE) - self.yielded()) as nat)
    }

    open spec fn initial_value_relation(&self, init: &Self) -> bool {
        self == init
    }

    open spec fn peek(&self, index: int) -> Option<(VolumeIdx, &'volume T)> {
        None
    }
}

impl<const SIZE: usize> VolumeIndexIterator<SIZE> {
    #[verifier::type_invariant]
    spec fn cursor_inv(self) -> bool {
        cursor_valid(SIZE, self.0)
    }

    /// Number of indices that the traversal has already handed out.
    pub closed spec fn yielded(&self) -> nat {
        rank(SIZE, self.0)
    }

    /// What the traversal will still hand out: the indices from the place
    /// that it has reached.
    pub proof fn lemma_remaining(&self)
        ensures
            self.remaining() == indices_from(SIZE, self.yielded()),
    {
    }
}

impl<const SIZE: usize> Iterator for VolumeIndexIterator<SIZE> {
    type Item = VolumeIdx;

    /// The next index of the traversal, or `None` at the end. By the
    /// contract of `Iterator::next` the index is the first of `remaining()`,
    /// and the others remain.
    fn next(&mut self) -> (item: Option<VolumeIdx>)
        ensures
            item is Some ==> final(self).yielded() == old(self).yielded() + 1,
            item is None ==> final(self).yielded() == old(self).yielded(),
            final(self).yielded() <= volume_len(SIZE),
    {
        proof {
            use_type_invariant(&*self);
            lemma_cursor_place(SIZE, self.0);
        }
        let index_before = self.0;
        let (x, y, z) = index_before;
        if z >= SIZE {
            return None;
        }
        let mut nx = x + 1;
        let mut ny = y;
        let mut nz = z;
        if nx >= SIZE {
            nx = 0;
            ny += 1;
        }
        if ny >= SIZE {
            ny = 0;
            nz += 1;
        }
        proof {
            lemma_cursor_step(SIZE, index_before);
            lemma_cursor_place(SIZE, (nx, ny, nz));
            lemma_indices_from_step(SIZE, rank(SIZE, index_before));
        }
        self.0 = (nx, ny, nz);
        Some(index_before)
    }
}

impl<const SIZE: usize> vstd::std_specs::iter::IteratorSpecImpl for VolumeIndexIterator<SIZE> {
    open spec fn obeys_prophetic_iter_laws(&self) -> bool {
        true
    }

    closed spec fn remaining(&self) -> Seq<VolumeIdx> {
        indices_from(SIZE, self.yielded())
    }

    open spec fn will_return_none(&self) -> bool {
        true
    }

    closed spec fn decrease(&self) -> Option<nat> {
        Some((volume_len(SIZE) - self.yielded()) as nat)
    }

    open spec fn initial_value_relation(&self, init: &Self) -> bool {
        self == init
    }

    open spec fn peek(&self, index: int) -> Option<VolumeIdx> {
        None
    }
}

} // verus!
