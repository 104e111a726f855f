use vstd::prelude::*;

use crate::rng::{index_from_state, lcg_next, next_index};

verus! {

pub const GRIDSHOT_CONCURRENT: usize = 3;
pub const GRIDSHOT_TASK_VERSION: &'static str = "1";
pub const GRIDSHOT_GRID_ROWS: i32 = 3;
pub const GRIDSHOT_GRID_COLS: i32 = 3;
pub const GRIDSHOT_TRIAL_TYPE: &'static str = "GRIDSHOT";

/// The nine cells of the 3×3 grid as `(row, col)` with both in `-1..=1`,
/// row-major from `(-1, -1)`.
pub open spec fn grid_cells() -> Seq<(i32, i32)> {
    seq![
        (-1i32, -1i32),
        (-1i32, 0i32),
        (-1i32, 1i32),
        (0i32, -1i32),
        (0i32, 0i32),
        (0i32, 1i32),
        (1i32, -1i32),
        (1i32, 0i32),
        (1i32, 1i32),
    ]
}

pub open spec fn in_grid(c: (i32, i32)) -> bool {
    -1 <= c.0 <= 1 && -1 <= c.1 <= 1
}

proof fn lemma_grid_cells()
    ensures
        grid_cells().len() == 9,
        grid_cells().no_duplicates(),
        forall|c: (i32, i32)| grid_cells().contains(c) <==> in_grid(c),
{
    let g = grid_cells();
    assert forall|c: (i32, i32)| in_grid(c) implies g.contains(c) by {
        let i = (c.0 + 1) * 3 + (c.1 + 1);
        assert(g[i] == c);
    }
}

/// The grid cells, in the order of `grid_cells`.
pub fn gridshot_cells() -> (v: Vec<(i32, i32)>)
    ensures
        v@ == grid_cells(),
{
    let mut v = Vec::new();
    v.push((-1, -1));
    v.push((-1, 0));
    v.push((-1, 1));
    v.push((0, -1));
    v.push((0, 0));
    v.push((0, 1));
    v.push((1, -1));
    v.push((1, 0));
    v.push((1, 1));
    assert(v@ =~= grid_cells());
    v
}

/// `s` with element `i` replaced by the last element and the last dropped.
pub open spec fn swap_removed<T>(s: Seq<T>, i: int) -> Seq<T> {
    s.update(i, s.last()).drop_last()
}

proof fn lemma_swap_removed<T>(s: Seq<T>, i: int)
    requires
        0 <= i < s.len(),
        s.no_duplicates(),
    ensures
        swap_removed(s, i).len() == s.len() - 1,
        swap_removed(s, i).no_duplicates(),
        forall|x: T| swap_removed(s, i).contains(x) <==> (s.contains(x) && x != s[i]),
{
    let r = swap_removed(s, i);
    let n = s.len();
    assert forall|x: T| r.contains(x) implies (s.contains(x) && x != s[i]) by {
        let j = choose|j: int| 0 <= j < r.len() && r[j] == x;
        if j == i {
            assert(r[j] == s[n - 1]);
        } else {
            assert(r[j] == s[j]);
        }
    }
    assert forall|x: T| s.contains(x) && x != s[i] implies r.contains(x) by {
        let j = choose|j: int| 0 <= j < n && s[j] == x;
        if j == n - 1 {
            assert(r[i] == x);
        } else {
            assert(r[j] == x);
        }
    }
    assert forall|a: int, b: int| 0 <= a < r.len() && 0 <= b < r.len() && a != b implies r[a]
        != r[b] by {
        let ia = if a == i { n - 1 } else { a };
        let ib = if b == i { n - 1 } else { b };
        assert(r[a] == s[ia]);
        assert(r[b] == s[ib]);
    }
}

/// The three distinct opening cells drawn from the generator seeded with `seed`:
/// each draw picks an index into the pool of cells still free and removes that
/// cell by swapping in the pool's last cell.
pub open spec fn initial_cells(seed: u64) -> Seq<(i32, i32)> {
    let s1 = lcg_next(seed);
    let p0 = grid_cells();
    let i0 = index_from_state(s1, 9) as int;
    let p1 = swap_removed(p0, i0);
    let s2 = lcg_next(s1);
    let i1 = index_from_state(s2, 8) as int;
    let p2 = swap_removed(p1, i1);
    let s3 = lcg_next(s2);
    let i2 = index_from_state(s3, 7) as int;
    seq![p0[i0], p1[i1], p2[i2]]
}

/// Draw the three opening cells: distinct, on the grid, and fixed by the seed.
pub fn pick_initial_cells(rng: &mut u64) -> (r: [(i32, i32); 3])
    ensures
        r@ == initial_cells(*old(rng)),
        *final(rng) == lcg_next(lcg_next(lcg_next(*old(rng)))),
        r@.no_duplicates(),
        forall|k: int| 0 <= k < 3 ==> in_grid(#[trigger] r@[k]),
{
    proof {
        lemma_grid_cells();
    }
    let ghost seed = *rng;
    let mut pool = gridshot_cells();
    let ghost p0 = pool@;
    let i0 = next_index(rng, pool.len());
    let a = pool.swap_remove(i0);
    proof {
        lemma_swap_removed(p0, i0 as int);
    }
    let ghost p1 = pool@;
    let i1 = next_index(rng, pool.len());
    let b = pool.swap_remove(i1);
    proof {
        lemma_swap_removed(p1, i1 as int);
        assert(p1.contains(b));
    }
    let ghost p2 = pool@;
    let i2 = next_index(rng, pool.len());
    let c = pool.swap_remove(i2);
    proof {
        lemma_swap_removed(p2, i2 as int);
        assert(p2.contains(c));
        assert(p0.contains(a));
    }
    let r = [a, b, c];
    assert(r@ =~= seq![a, b, c]);
    assert(r@ =~= initial_cells(seed));
    r
}

/// Keep the cells of `cells` that `occupied` does not hold, in order.
pub open spec fn keep_vacant(cells: Seq<(i32, i32)>, occupied: Seq<(i32, i32)>) -> Seq<(i32, i32)>
    decreases cells.len(),
{
    if cells.len() == 0 {
        Seq::empty()
    } else {
        let r = keep_vacant(cells.drop_last(), occupied);
        if occupied.contains(cells.last()) {
            r
        } else {
            r.push(cells.last())
        }
    }
}

proof fn lemma_keep_vacant(cells: Seq<(i32, i32)>, occupied: Seq<(i32, i32)>)
    ensures
        forall|x: (i32, i32)| keep_vacant(cells, occupied).contains(x) <==> (cells.contains(x)
            && !occupied.contains(x)),
    decreases cells.len(),
{
    if cells.len() > 0 {
        lemma_keep_vacant(cells.drop_last(), occupied);
        let r = keep_vacant(cells.drop_last(), occupied);
        assert forall|x: (i32, i32)| cells.contains(x) <==> (cells.drop_last().contains(x) || x
            == cells.last()) by {
            if cells.contains(x) {
                let j = choose|j: int| 0 <= j < cells.len() && cells[j] == x;
                if j < cells.len() - 1 {
                    assert(cells.drop_last()[j] == x);
                }
            }
            if cells.drop_last().contains(x) {
                let j = choose|j: int| 0 <= j < cells.len() - 1 && cells.drop_last()[j] == x;
                assert(cells[j] == x);
            }
        }
        if !occupied.contains(cells.last()) {
            assert forall|x: (i32, i32)| r.push(cells.last()).contains(x) <==> (r.contains(x) || x
                == cells.last()) by {
                if r.push(cells.last()).contains(x) {
                    let j = choose|j: int| 0 <= j <= r.len() && r.push(cells.last())[j] == x;
                    if j < r.len() {
                        assert(r[j] == x);
                    }
                }
                if r.contains(x) {
                    let j = choose|j: int| 0 <= j < r.len() && r[j] == x;
                    assert(r.push(cells.last())[j] == x);
                }
                if x == cells.last() {
                    assert(r.push(cells.last())[r.len() as int] == x);
                }
            }
        }
    }
}

/// The grid cells that `occupied` does not hold, row-major.
pub open spec fn vacant_cells(occupied: Seq<(i32, i32)>) -> Seq<(i32, i32)> {
    keep_vacant(grid_cells(), occupied)
}

fn holds_cell(cells: &[(i32, i32)], c: (i32, i32)) -> (r: bool)
    ensures
        r == cells@.contains(c),
{
    let mut i: usize = 0;
    while i < cells.len()
        invariant
            i <= cells@.len(),
            forall|j: int| 0 <= j < i ==> cells@[j] != c,
        decreases cells.len() - i,
    {
        let o = cells[i];
        if o.0 == c.0 && o.1 == c.1 {
            assert(cells@[i as int] == c);
            return true;
        }
        i = i + 1;
    }
    false
}

/// Draw uniformly among the grid cells that `occupied` does not hold.
pub fn pick_vacant_cell(rng: &mut u64, occupied: &[(i32, i32)]) -> (r: (i32, i32))
    requires
        exists|c: (i32, i32)| in_grid(c) && !occupied@.contains(c),
    ensures
        *final(rng) == lcg_next(*old(rng)),
        r == vacant_cells(occupied@)[index_from_state(*final(rng), vacant_cells(
            occupied@,
        ).len()) as int],
        in_grid(r),
        !occupied@.contains(r),
{
    proof {
        lemma_grid_cells();
        lemma_keep_vacant(grid_cells(), occupied@);
    }
    let cells = gridshot_cells();
    let mut vacant: Vec<(i32, i32)> = Vec::new();
    let mut k: usize = 0;
    while k < cells.len()
        invariant
            cells@ == grid_cells(),
            k <= cells@.len(),
            vacant@ == keep_vacant(cells@.take(k as int), occupied@),
        decreases cells.len() - k,
    {
        let c = cells[k];
        assert(cells@.take(k + 1).drop_last() =~= cells@.take(k as int));
        if !holds_cell(occupied, c) {
            vacant.push(c);
        }
        k = k + 1;
    }
    assert(cells@.take(9) =~= cells@);
    let ghost v = vacant@;
    proof {
        let w = choose|c: (i32, i32)| in_grid(c) && !occupied@.contains(c);
        assert(v.contains(w));
        assert(v.len() <= 9) by {
            lemma_keep_vacant_len(grid_cells(), occupied@);
        }
    }
    let i = next_index(rng, vacant.len());
    let r = vacant[i];
    assert(v.contains(r));
    r
}

proof fn lemma_keep_vacant_len(cells: Seq<(i32, i32)>, occupied: Seq<(i32, i32)>)
    ensures
        keep_vacant(cells, occupied).len() <= cells.len(),
    decreases cells.len(),
{
    if cells.len() > 0 {
        lemma_keep_vacant_len(cells.drop_last(), occupied);
    }
}

/// Which grid cells hold a live target, and which target each holds: at most
/// one target per cell.
#[derive(Debug, Clone, PartialEq, Eq)]
pub struct GridOccupancy {
    cells: Vec<(i32, i32)>,
    target_ids: Vec<String>,
}

impl GridOccupancy {
    /// Occupied cells, in the order they were filled.
    pub closed spec fn cells(&self) -> Seq<(i32, i32)> {
        self.cells@
    }

    /// Target ids, parallel to `cells`.
    pub closed spec fn ids(&self) -> Seq<Seq<char>> {
        self.target_ids@.map_values(|s: String| s@)
    }

    /// One id per occupied cell, and no cell occupied twice.
    pub closed spec fn wf(&self) -> bool {
        &&& self.cells@.len() == self.target_ids@.len()
        &&& self.cells@.no_duplicates()
    }

    pub fn new() -> (g: Self)
        ensures
            g.wf(),
            g.cells() == Seq::<(i32, i32)>::empty(),
            g.ids() == Seq::<Seq<char>>::empty(),
    {
        let g = GridOccupancy { cells: Vec::new(), target_ids: Vec::new() };
        assert(g.ids() =~= Seq::<Seq<char>>::empty());
        g
    }

    pub fn len(&self) -> (n: usize)
        requires
            self.wf(),
        ensures
            n == self.cells().len(),
            n == self.ids().len(),
    {
        self.cells.len()
    }

    pub fn is_empty(&self) -> (b: bool)
        ensures
            b == (self.cells().len() == 0),
    {
        self.cells.len() == 0
    }

    pub fn occupied_cells(&self) -> (s: &[(i32, i32)])
        ensures
            s@ == self.cells(),
    {
        self.cells.as_slice()
    }

    fn position(&self, row: i32, col: i32) -> (r: Option<usize>)
        ensures
            match r {
                Some(i) => i < self.cells().len() && self.cells()[i as int] == (row, col),
                None => !self.cells().contains((row, col)),
            },
    {
        let mut i: usize = 0;
        while i < self.cells.len()
            invariant
                i <= self.cells@.len(),
                forall|j: int| 0 <= j < i ==> self.cells@[j] != (row, col),
            decreases self.cells.len() - i,
        {
            let c = self.cells[i];
            if c.0 == row && c.1 == col {
                return Some(i);
            }
            i = i + 1;
        }
        None
    }

    pub fn is_occupied(&self, row: i32, col: i32) -> (b: bool)
        ensures
            b == self.cells().contains((row, col)),
    {
        match self.position(row, col) {
            Some(_) => true,
            None => false,
        }
    }

    /// The id of the target in `(row, col)`, if any.
    pub fn target_at(&self, row: i32, col: i32) -> (r: Option<&str>)
        requires
            self.wf(),
        ensures
            match r {
                Some(s) => exists|i: int|
                    0 <= i < self.cells().len() && self.cells()[i] == (row, col) && s@
                        == self.ids()[i],
                None => !self.cells().contains((row, col)),
            },
    {
        match self.position(row, col) {
            Some(i) => Some(self.target_ids[i].as_str()),
            None => None,
        }
    }

    /// Place `target_id` in the free cell `(row, col)`.
    pub fn occupy(&mut self, row: i32, col: i32, target_id: &str)
        requires
            old(self).wf(),
            !old(self).cells().contains((row, col)),
        ensures
            final(self).wf(),
            final(self).cells() == old(self).cells().push((row, col)),
            final(self).ids() == old(self).ids().push(target_id@),
    {
        let ghost old_ids = self.ids();
        let ghost old_cells = self.cells@;
        self.cells.push((row, col));
        self.target_ids.push(String::from_str(target_id));
        assert(self.ids() =~= old_ids.push(target_id@));
        assert forall|a: int, b: int|
            0 <= a < self.cells@.len() && 0 <= b < self.cells@.len() && a != b implies self.cells@[a]
            != self.cells@[b] by {
            if a == old_cells.len() {
                assert(old_cells.contains(self.cells@[b]));
            } else if b == old_cells.len() {
                assert(old_cells.contains(self.cells@[a]));
            }
        }
    }

    /// Free `(row, col)`, returning the id of the target that held it.
    pub fn vacate(&mut self, row: i32, col: i32) -> (r: Option<String>)
        requires
            old(self).wf(),
        ensures
            final(self).wf(),
            !final(self).cells().contains((row, col)),
            match r {
                Some(id) => exists|i: int|
                    0 <= i < old(self).cells().len() && old(self).cells()[i] == (row, col) && id@
                        == old(self).ids()[i] && final(self).cells() == old(self).cells().remove(i)
                        && final(self).ids() == old(self).ids().remove(i),
                None => !old(self).cells().contains((row, col)) && final(self).cells() == old(
                    self,
                ).cells() && final(self).ids() == old(self).ids(),
            },
    {
        match self.position(row, col) {
            Some(i) => {
                let ghost old_cells = self.cells@;
                let ghost old_ids = self.ids();
                self.cells.remove(i);
                let id = self.target_ids.remove(i);
                assert(self.ids() =~= old_ids.remove(i as int));
                assert forall|a: int, b: int|
                    0 <= a < self.cells@.len() && 0 <= b < self.cells@.len() && a != b implies self.cells@[a]
                    != self.cells@[b] by {
                    let ia = if a < i { a } else { a + 1 };
                    let ib = if b < i { b } else { b + 1 };
                    assert(self.cells@[a] == old_cells[ia]);
                    assert(self.cells@[b] == old_cells[ib]);
                }
                assert(!self.cells@.contains((row, col))) by {
                    if self.cells@.contains((row, col)) {
                        let j = choose|j: int| 0 <= j < self.cells@.len() && self.cells@[j] == (row, col);
                        let oj = if j < i { j } else { j + 1 };
                        assert(old_cells[oj] == (row, col));
                        assert(old_cells[i as int] == (row, col));
                    }
                }
                Some(id)
            },
            None => None,
        }
    }
}

impl Default for GridOccupancy {
    fn default() -> (g: Self)
        ensures
            g.wf(),
            g.cells() == Seq::<(i32, i32)>::empty(),
            g.ids() == Seq::<Seq<char>>::empty(),
    {
        Self::new()
    }
}

/// One target per cell: an occupancy reached from `new()` by `occupy` and
/// `vacate` never holds a cell twice and keeps one id per occupied cell; so
/// `is_occupied` and `target_at` agree on every cell. When every occupied
/// cell is a grid cell (as the task only ever occupies), at most nine cells
/// are held.
pub proof fn law_one_target_per_cell(g: GridOccupancy)
    requires
        g.wf(),
    ensures
        g.cells().no_duplicates(),
        g.cells().len() == g.ids().len(),
        (forall|i: int| 0 <= i < g.cells().len() ==> in_grid(#[trigger] g.cells()[i])) ==> g.cells().len()
            <= 9,
{
    let cs = g.cells();
    if forall|i: int| 0 <= i < cs.len() ==> in_grid(#[trigger] cs[i]) {
        lemma_grid_cells();
        cs.unique_seq_to_set();
        grid_cells().unique_seq_to_set();
        vstd::seq_lib::seq_to_set_is_finite(grid_cells());
        assert forall|c: (i32, i32)| cs.to_set().contains(c) implies grid_cells().to_set().contains(c) by {
            let i = choose|i: int| 0 <= i < cs.len() && cs[i] == c;
            assert(in_grid(cs[i]));
            assert(grid_cells().contains(c));
        }
        vstd::set_lib::lemma_len_subset(cs.to_set(), grid_cells().to_set());
    }
}

} // verus!
