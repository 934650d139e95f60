//! The grid: a row-major array of columns with a wrapping step counter.
use crate::cells::{Cell, CellView};
use vstd::prelude::*;

verus! {

/// The step counter after one increment: 255 wraps to 0.
pub open spec fn next_step(s: u8) -> u8 {
    ((s + 1) % 256) as u8
}

/// The step counter after `n` increments.
pub open spec fn steps_after(s: u8, n: nat) -> u8
    decreases n,
{
    if n == 0 {
        s
    } else {
        next_step(steps_after(s, (n - 1) as nat))
    }
}

/// Incrementing the step counter 256 times comes back to where it started,
/// and never faults on the way.
pub proof fn lemma_step_wraps(s: u8)
    ensures
        steps_after(s, 256) == s,
{
    assert forall|n: nat| n <= 256 implies #[trigger] steps_after(s, n) == (s + n) % 256 by {
        lemma_steps_after(s, n);
    }
}

proof fn lemma_steps_after(s: u8, n: nat)
    ensures
        steps_after(s, n) == (s + n) % 256,
    decreases n,
{
    if n > 0 {
        lemma_steps_after(s, (n - 1) as nat);
    }
}

/// The content of a column as it is when the grid is made.
pub open spec fn fresh_cell(c: CellView) -> bool {
    &&& c.immoveable_ground_level == 0
    &&& c.moveable_ground.len() == 0
    &&& c.moveable_liquid == crate::cells::empty_layer()
    &&& !c.generated_this_tick
}

/// The mathematical content of a grid.
pub struct GridView {
    pub width: nat,
    pub height: nat,
    pub step: u8,
    pub cells: Seq<CellView>,
}

impl GridView {
    /// Positive dimensions and one column per position.
    pub open spec fn wf(self) -> bool {
        &&& self.width > 0
        &&& self.height > 0
        &&& self.cells.len() == self.width * self.height
        &&& self.width * self.height <= usize::MAX
    }

    pub open spec fn in_bounds(self, x: int, z: int) -> bool {
        0 <= x < self.width && 0 <= z < self.height
    }

    /// Row-major position of `(x, z)`.
    pub open spec fn index(self, x: int, z: int) -> int {
        z * self.width + x
    }
}

/// Views of a sequence of columns.
pub open spec fn views(v: Seq<Cell>) -> Seq<CellView> {
    v.map_values(|c: Cell| c@)
}

/// A grid of columns, `width` by `height`, stored row by row.
#[derive(Clone, Debug)]
pub struct Grid {
    width: usize,
    height: usize,
    current_step: u8,
    cells: Vec<Cell>,
}

impl View for Grid {
    type V = GridView;

    closed spec fn view(&self) -> GridView {
        GridView {
            width: self.width as nat,
            height: self.height as nat,
            step: self.current_step,
            cells: views(self.cells@),
        }
    }
}

/// Where `(x, z)` lies in row-major order lies inside a `w` by `h` grid.
proof fn lemma_index_in_range(x: int, z: int, w: int, h: int)
    requires
        0 <= x < w,
        0 <= z < h,
    ensures
        0 <= z * w + x < w * h,
{
    assert(z * w + x < w * h) by (nonlinear_arith)
        requires
            0 <= x < w,
            0 <= z < h,
    ;
    assert(0 <= z * w) by (nonlinear_arith)
        requires
            0 <= z,
            0 <= w,
    ;
}

impl Grid {
    /// A `width` by `height` grid of fresh columns, at step 0.
    pub fn new(width: usize, height: usize) -> (r: Self)
        requires
            width > 0,
            height > 0,
            width * height <= usize::MAX,
        ensures
            r@.wf(),
            r@.width == width,
            r@.height == height,
            r@.step == 0,
            forall|i: int| 0 <= i < r@.cells.len() ==> fresh_cell(#[trigger] r@.cells[i]),
    {
        let length = width * height;
        let mut cells: Vec<Cell> = Vec::with_capacity(length);
        let mut i: usize = 0;
        while i < length
            invariant
                i <= length,
                cells@.len() == i,
                forall|j: int| 0 <= j < i ==> fresh_cell(#[trigger] cells@[j]@),
            decreases length - i,
        {
            cells.push(Cell::default());
            i += 1;
        }
        let r = Grid { width, height, current_step: 0, cells };
        assert(r@.cells.len() == length);
        r
    }

    pub fn get_width(&self) -> (r: usize)
        ensures
            r == self@.width,
    {
        self.width
    }

    pub fn get_height(&self) -> (r: usize)
        ensures
            r == self@.height,
    {
        self.height
    }

    pub fn get_step(&self) -> (r: u8)
        ensures
            r == self@.step,
    {
        self.current_step
    }

    pub fn set_step(&mut self, step: u8)
        ensures
            final(self)@ == (GridView { step, ..old(self)@ }),
    {
        self.current_step = step;
    }

    /// All columns, row by row.
    pub fn get_cells(&self) -> (r: &Vec<Cell>)
        ensures
            views(r@) == self@.cells,
    {
        &self.cells
    }

    /// All columns, for writing; the caller keeps their number.
    pub fn get_cells_mut(&mut self) -> (r: &mut Vec<Cell>)
        ensures
            views(r@) == old(self)@.cells,
            final(self)@ == (GridView { cells: views(final(r)@), ..old(self)@ }),
    {
        &mut self.cells
    }

    /// Advances the step counter, wrapping from 255 to 0.
    pub fn increment_step(&mut self)
        ensures
            final(self)@ == (GridView { step: next_step(old(self)@.step), ..old(self)@ }),
    {
        self.current_step = self.current_step.wrapping_add(1);
    }

    /// Overwrites everything, dimensions included, with the state of `other`,
    /// keeping this grid's column storage for reuse.
    pub fn copy_from(&mut self, other: &Grid)
        ensures
            final(self)@ == other@,
    {
        self.width = other.width;
        self.height = other.height;
        self.current_step = other.current_step;
        self.cells.clear();
        let mut i: usize = 0;
        while i < other.cells.len()
            invariant
                i <= other.cells@.len(),
                self.cells@.len() == i,
                forall|j: int| 0 <= j < i ==> (#[trigger] self.cells@[j])@ == other.cells@[j]@,
                self.width == other.width,
                self.height == other.height,
                self.current_step == other.current_step,
            decreases other.cells@.len() - i,
        {
            self.cells.push(other.cells[i].duplicate());
            i += 1;
        }
        assert(views(self.cells@) =~= views(other.cells@));
    }

    /// A fresh grid holding the same state.
    pub fn snapshot(&self) -> (r: Grid)
        ensures
            r@ == self@,
    {
        let mut r = Grid { width: self.width, height: self.height, current_step: 0, cells: Vec::new() };
        r.copy_from(self);
        r
    }

    pub fn in_bounds(&self, x: usize, z: usize) -> (r: bool)
        ensures
            r == self@.in_bounds(x as int, z as int),
    {
        x < self.width && z < self.height
    }

    /// Row-major position of `(x, z)`, or `None` off the grid.
    pub fn index_of(&self, x: usize, z: usize) -> (r: Option<usize>)
        requires
            self@.wf(),
        ensures
            r is Some <==> self@.in_bounds(x as int, z as int),
            r matches Some(i) ==> i == self@.index(x as int, z as int) && i < self@.cells.len(),
            self@.in_bounds(x as int, z as int) ==> 0 <= self@.index(x as int, z as int)
                < self@.cells.len(),
    {
        if !self.in_bounds(x, z) {
            return None;
        }
        let n = self.cells.len();
        proof {
            assert(views(self.cells@).len() == self.cells@.len());
            lemma_index_in_range(x as int, z as int, self.width as int, self.height as int);
        }
        assert(z * self.width + x < n);
        Some(z * self.width + x)
    }

    /// The column at `(x, z)`; `None` when there is no such column.
    pub fn get_cell(&self, x: usize, z: usize) -> (r: Option<&Cell>)
        requires
            self@.wf(),
        ensures
            r is Some <==> self@.in_bounds(x as int, z as int),
            r matches Some(c) ==> c@ == self@.cells[self@.index(x as int, z as int)],
    {
        let index = self.index_of(x, z);
        if let Some(index) = index {
            assert(views(self.cells@)[index as int] == self.cells@[index as int]@);
            return Some(&self.cells[index]);
        }
        None
    }

    /// The column at `(x, z)` for writing; `None` when there is no such column.
    pub fn get_cell_mut(&mut self, x: usize, z: usize) -> (r: Option<&mut Cell>)
        requires
            old(self)@.wf(),
        ensures
            r is Some <==> old(self)@.in_bounds(x as int, z as int),
            r is None ==> final(self)@ == old(self)@,
            r is Some ==> (*r.unwrap())@ == old(self)@.cells[old(self)@.index(x as int, z as int)],
            r is Some ==> final(self)@ == (GridView {
                cells: old(self)@.cells.update(
                    old(self)@.index(x as int, z as int),
                    (*final(r.unwrap()))@,
                ),
                ..old(self)@
            }),
    {
        let index = self.index_of(x, z);
        if let Some(index) = index {
            let ghost c0 = self.cells@;
            assert(views(c0)[index as int] == c0[index as int]@);
            let r = &mut self.cells[index];
            assert(views(c0.update(index as int, *final(r))) =~= views(c0).update(index as int, (*final(r))@));
            return Some(r);
        }
        None
    }
}

} // verus!
