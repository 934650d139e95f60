//! The tick engine: configuration, the granular-transport pass, and the
//! double-buffered tick that runs it.
use crate::cells::{
    added, granular, ground_total, lemma_added_totals, lemma_ground_total_nonneg,
    lemma_removed_within_top, min, removed_from, Cell, CellView, Layer, MaterialId,
};
use crate::world::{next_step, views, Grid, GridView};
use vstd::arithmetic::div_mod::{lemma_fundamental_div_mod, lemma_mod_pos_bound};
use vstd::prelude::*;

verus! {

/// Tunable options of the tick engine.
#[derive(Clone, Copy, Debug, PartialEq, Eq, Structural)]
pub struct SimConfig {
    /// Cap on a column's total moveable height, enforced when mass is added.
    pub max_total_moveable_height: u16,
    /// Cap on what one column sends to one neighbour in one pass.
    pub max_transfer_per_pass: u16,
    /// Reverse the sweep over columns on every other tick.
    pub alternate_scan_direction: bool,
    /// Cap for the combustion pass.
    pub max_fire_height: u16,
    /// Height difference a column must exceed before granular material
    /// flows from it to a neighbour.
    pub slope_threshold: u16,
}

impl Default for SimConfig {
    fn default() -> (r: SimConfig)
        ensures
            r == (SimConfig {
                max_total_moveable_height: 64,
                max_transfer_per_pass: 4,
                alternate_scan_direction: true,
                max_fire_height: 8,
                slope_threshold: 1,
            }),
    {
        SimConfig {
            max_total_moveable_height: 64,
            max_transfer_per_pass: 4,
            alternate_scan_direction: true,
            max_fire_height: 8,
            slope_threshold: 1,
        }
    }
}

/// One move of granular material from column `from` to column `to`: how much
/// came off the source, and how much of it the destination kept under its cap.
#[derive(Clone, Copy, Debug, PartialEq, Eq, Structural)]
pub struct Transfer {
    pub from: usize,
    pub to: usize,
    pub material: MaterialId,
    pub removed: usize,
    pub applied: usize,
}

/// Position of the neighbour of column `i` in direction `d` (0 north, 1 east,
/// 2 south, 3 west) on a `w` by `h` grid, if it is on the grid.
pub open spec fn neighbour(w: int, h: int, i: int, d: int) -> Option<int> {
    let x = i % w;
    let z = i / w;
    if d == 0 {
        if z > 0 { Some(i - w) } else { None }
    } else if d == 1 {
        if x + 1 < w { Some(i + 1) } else { None }
    } else if d == 2 {
        if z + 1 < h { Some(i + w) } else { None }
    } else {
        if x > 0 { Some(i - 1) } else { None }
    }
}

/// The strictly lowest among the first `k` neighbours; the earlier wins a tie.
pub open spec fn lowest_upto(s: Seq<CellView>, w: int, h: int, i: int, k: int) -> Option<int>
    decreases k,
{
    if k <= 0 {
        None
    } else {
        let prev = lowest_upto(s, w, h, i, k - 1);
        match neighbour(w, h, i, k - 1) {
            None => prev,
            Some(j) => match prev {
                None => Some(j),
                Some(b) => if s[j].height() < s[b].height() {
                    Some(j)
                } else {
                    Some(b)
                },
            },
        }
    }
}

/// The lowest of the four neighbours of column `i`.
pub open spec fn lowest_neighbour(g: GridView, i: int) -> Option<int> {
    lowest_upto(g.cells, g.width as int, g.height as int, i, 4)
}

/// The column's top ground layer is granular and not empty.
pub open spec fn top_granular(c: CellView) -> bool {
    &&& c.moveable_ground.len() > 0
    &&& granular(c.moveable_ground.last().material_id)
    &&& c.moveable_ground.last().thickness > 0
}

/// How much a column may still take: up to the cap on its moveable height,
/// and no more than keeps its height representable.
pub open spec fn room(c: CellView, cap: int) -> int {
    min(
        if c.total_moveable() < cap {
            cap - c.total_moveable()
        } else {
            0
        },
        usize::MAX - c.height(),
    )
}

/// What column `i` sends in the granular pass, read from the snapshot `src`
/// and written into the destination cells `d`.
pub open spec fn plan(src: GridView, d: Seq<CellView>, i: int, cfg: SimConfig) -> Option<Transfer> {
    let c = src.cells[i];
    if d[i].generated_this_tick || !top_granular(c) {
        None
    } else {
        match lowest_neighbour(src, i) {
            None => None,
            Some(n) => {
                let diff = c.height() - src.cells[n].height();
                if diff <= cfg.slope_threshold {
                    None
                } else {
                    let amount = min(
                        min(cfg.max_transfer_per_pass as int, diff / 2),
                        c.moveable_ground.last().thickness as int,
                    );
                    let removed = min(amount, ground_total(d[i].moveable_ground));
                    let applied = min(removed, room(d[n], cfg.max_total_moveable_height as int));
                    Some(
                        Transfer {
                            from: i as usize,
                            to: n as usize,
                            material: c.moveable_ground.last().material_id,
                            removed: removed as usize,
                            applied: applied as usize,
                        },
                    )
                }
            },
        }
    }
}

/// The destination cells after a transfer; both columns are marked.
pub open spec fn apply(d: Seq<CellView>, t: Transfer) -> Seq<CellView> {
    let f = t.from as int;
    let n = t.to as int;
    d.update(
        f,
        d[f].with_ground(removed_from(d[f].moveable_ground, t.removed as nat)).flagged(true),
    ).update(n, d[n].with_ground(added(d[n].moveable_ground, t.material, t.applied)).flagged(true))
}

/// The columns with their scratch flags reset.
pub open spec fn cleared(s: Seq<CellView>) -> Seq<CellView> {
    s.map_values(|c: CellView| c.flagged(false))
}

/// This tick sweeps the columns from last to first.
pub open spec fn reversed(src: GridView, cfg: SimConfig) -> bool {
    cfg.alternate_scan_direction && src.step % 2 == 1
}

/// The column visited `k`-th in a sweep over `n` columns.
pub open spec fn scan_index(n: int, k: int, rev: bool) -> int {
    if rev {
        n - 1 - k
    } else {
        k
    }
}

/// The destination cells and the transfers after the first `k` columns of the
/// sweep of the granular pass over `src`.
pub open spec fn sweep(src: GridView, cfg: SimConfig, k: nat) -> (Seq<CellView>, Seq<Transfer>)
    decreases k,
{
    if k == 0 {
        (cleared(src.cells), Seq::empty())
    } else {
        let prev = sweep(src, cfg, (k - 1) as nat);
        let i = scan_index(src.cells.len() as int, k - 1, reversed(src, cfg));
        match plan(src, prev.0, i, cfg) {
            None => prev,
            Some(t) => (apply(prev.0, t), prev.1.push(t)),
        }
    }
}

/// The outcome of the whole granular pass over `src`.
pub open spec fn granular_result(src: GridView, cfg: SimConfig) -> (Seq<CellView>, Seq<Transfer>) {
    sweep(src, cfg, src.cells.len())
}

/// Amount of `m` summed over columns.
pub open spec fn total_amount(s: Seq<CellView>, m: MaterialId) -> int
    decreases s.len(),
{
    if s.len() == 0 {
        0
    } else {
        total_amount(s.drop_last(), m) + s.last().amount(m)
    }
}

/// Amount of `m` that transfers lost at the destination's cap.
pub open spec fn clipped(ts: Seq<Transfer>, m: MaterialId) -> int
    decreases ts.len(),
{
    if ts.len() == 0 {
        0
    } else {
        clipped(ts.drop_last(), m) + if ts.last().material == m {
            ts.last().removed - ts.last().applied
        } else {
            0
        }
    }
}

/// Column `i` is higher than its neighbour in direction `d`, if there is
/// one, by no more than the slope threshold.
pub open spec fn gentle(g: GridView, i: int, d: int, cfg: SimConfig) -> bool {
    match neighbour(g.width as int, g.height as int, i, d) {
        None => true,
        Some(j) => g.cells[i].height() - g.cells[j].height() <= cfg.slope_threshold,
    }
}

/// No column is higher than an in-bounds neighbour by more than the slope
/// threshold.
pub open spec fn settled(g: GridView, cfg: SimConfig) -> bool {
    forall|i: int, d: int| 0 <= i < g.cells.len() && 0 <= d < 4 ==> #[trigger] gentle(g, i, d, cfg)
}

/// An optional position as an integer.
pub open spec fn opt_int(o: Option<usize>) -> Option<int> {
    match o {
        None => None,
        Some(j) => Some(j as int),
    }
}

/// Row and column of position `i`, and where its neighbours lie.
proof fn lemma_coords(i: int, w: int, h: int)
    requires
        w > 0,
        h > 0,
        0 <= i < w * h,
    ensures
        0 <= i % w < w,
        0 <= i / w < h,
        i == w * (i / w) + i % w,
        forall|d: int|
            #[trigger] neighbour(w, h, i, d) matches Some(j) ==> 0 <= j < w * h && j != i,
{
    lemma_fundamental_div_mod(i, w);
    lemma_mod_pos_bound(i, w);
    let x = i % w;
    let z = i / w;
    assert(0 <= z < h) by (nonlinear_arith)
        requires
            i == w * z + x,
            0 <= x < w,
            0 <= i < w * h,
            w > 0,
    ;
    assert(z > 0 ==> i - w >= 0) by (nonlinear_arith)
        requires
            i == w * z + x,
            0 <= x,
            w > 0,
            z >= 0,
    ;
    assert(z + 1 < h ==> i + w < w * h) by (nonlinear_arith)
        requires
            i == w * z + x,
            0 <= x < w,
            w > 0,
    ;
    assert(x + 1 < w ==> i + 1 < w * h) by (nonlinear_arith)
        requires
            i == w * z + x,
            0 <= z < h,
            w > 0,
    ;
    assert forall|d: int| #[trigger] neighbour(w, h, i, d) is Some implies 0 <= neighbour(
        w,
        h,
        i,
        d,
    )->0 < w * h && neighbour(w, h, i, d)->0 != i by {}
}

/// The neighbour of column `i` in direction `d` on a `w` by `h` grid.
fn neighbour_of(w: usize, h: usize, i: usize, d: usize) -> (r: Option<usize>)
    requires
        w > 0,
        h > 0,
        i < w * h,
        w * h <= usize::MAX,
    ensures
        opt_int(r) == neighbour(w as int, h as int, i as int, d as int),
{
    proof {
        lemma_coords(i as int, w as int, h as int);
    }
    let x = i % w;
    let z = i / w;
    if d == 0 {
        if z > 0 { Some(i - w) } else { None }
    } else if d == 1 {
        if x + 1 < w { Some(i + 1) } else { None }
    } else if d == 2 {
        if z + 1 < h { Some(i + w) } else { None }
    } else {
        if x > 0 { Some(i - 1) } else { None }
    }
}

/// The lowest neighbour of column `i` in `g` and its height.
fn lowest_neighbour_of(g: &Grid, i: usize) -> (r: Option<(usize, usize)>)
    requires
        g@.wf(),
        i < g@.cells.len(),
        forall|j: int| 0 <= j < g@.cells.len() ==> (#[trigger] g@.cells[j]).fits(),
    ensures
        opt_int(
            match r {
                None => None,
                Some(p) => Some(p.0),
            },
        ) == lowest_neighbour(g@, i as int),
        r matches Some(p) ==> p.0 < g@.cells.len() && p.1 == g@.cells[p.0 as int].height(),
{
    let w = g.get_width();
    let h = g.get_height();
    let cells = g.get_cells();
    let n = cells.len();
    proof {
        assert(views(cells@).len() == cells@.len());
        lemma_coords(i as int, w as int, h as int);
    }
    let mut best: Option<(usize, usize)> = None;
    let mut d: usize = 0;
    while d < 4
        invariant
            d <= 4,
            w * h <= usize::MAX,
            w == g@.width,
            h == g@.height,
            g@.wf(),
            i < g@.cells.len(),
            views(cells@) == g@.cells,
            forall|j: int| 0 <= j < g@.cells.len() ==> (#[trigger] g@.cells[j]).fits(),
            forall|e: int|
                #[trigger] neighbour(w as int, h as int, i as int, e) matches Some(j) ==> 0 <= j
                    < w * h && j != i,
            opt_int(
                match best {
                    None => None,
                    Some(p) => Some(p.0),
                },
            ) == lowest_upto(g@.cells, w as int, h as int, i as int, d as int),
            best matches Some(p) ==> p.0 < g@.cells.len() && p.1 == g@.cells[p.0 as int].height(),
        decreases 4 - d,
    {
        let nb = neighbour_of(w, h, i, d);
        if let Some(j) = nb {
            assert(neighbour(w as int, h as int, i as int, d as int) == Some(j as int));
            assert(cells@[j as int]@ == g@.cells[j as int]);
            let hj = cells[j].column_thickness();
            match best {
                None => {
                    best = Some((j, hj));
                },
                Some(p) => {
                    if hj < p.1 {
                        best = Some((j, hj));
                    }
                },
            }
        }
        d += 1;
    }
    best
}

/// Every column of the grid has a representable height.
pub open spec fn all_fit(s: Seq<CellView>) -> bool {
    forall|j: int| 0 <= j < s.len() ==> (#[trigger] s[j]).fits()
}

/// What holds of the destination cells `d` during the granular pass over
/// `src`: columns not yet written are the snapshot's, and all fit.
pub open spec fn tracks(src: GridView, d: Seq<CellView>) -> bool {
    &&& d.len() == src.cells.len()
    &&& all_fit(d)
    &&& forall|j: int|
        0 <= j < d.len() && !(#[trigger] d[j]).generated_this_tick ==> d[j] == src.cells[j].flagged(
            false,
        )
}

/// A stack holds at least its top layer.
proof fn lemma_top_le_total(s: Seq<Layer>)
    requires
        s.len() > 0,
    ensures
        s.last().thickness <= ground_total(s),
{
    lemma_ground_total_nonneg(s.drop_last());
}

/// Replacing one column changes a sum over columns by the difference.
proof fn lemma_total_update(s: Seq<CellView>, j: int, v: CellView, m: MaterialId)
    requires
        0 <= j < s.len(),
    ensures
        total_amount(s.update(j, v), m) == total_amount(s, m) - s[j].amount(m) + v.amount(m),
    decreases s.len(),
{
    let u = s.update(j, v);
    if j == s.len() - 1 {
        assert(u.drop_last() =~= s.drop_last());
    } else {
        assert(u.drop_last() =~= s.drop_last().update(j, v));
        lemma_total_update(s.drop_last(), j, v, m);
    }
}

/// A planned transfer keeps the pass's invariant, loses exactly what was
/// clipped, and never adds more than was removed.
proof fn lemma_step_keeps(src: GridView, d: Seq<CellView>, i: int, cfg: SimConfig)
    requires
        src.wf(),
        0 <= i < src.cells.len(),
        tracks(src, d),
        plan(src, d, i, cfg) is Some,
    ensures
        ({
            let t = plan(src, d, i, cfg)->0;
            &&& t.from == i
            &&& 0 <= t.to < src.cells.len()
            &&& t.to != i
            &&& t.applied <= t.removed
            &&& tracks(src, apply(d, t))
            &&& forall|m: MaterialId|
                #![trigger total_amount(apply(d, t), m)]
                total_amount(apply(d, t), m) == total_amount(d, m) - if t.material == m {
                    t.removed - t.applied
                } else {
                    0
                }
        }),
{
    let t = plan(src, d, i, cfg)->0;
    let w = src.width as int;
    let h = src.height as int;
    lemma_coords(i, w, h);
    lemma_lowest_is_neighbour(src.cells, w, h, i, 4);
    let n0 = lowest_neighbour(src, i)->0;
    let e = choose|e: int| 0 <= e < 4 && neighbour(w, h, i, e) == lowest_upto(src.cells, w, h, i, 4);
    assert(neighbour(w, h, i, e) is Some);
    assert(0 <= n0 < src.cells.len() && n0 != i);
    let n = t.to as int;
    assert(n == n0);
    assert(t.from as int == i);
    let s0 = d[i].moveable_ground;
    lemma_top_le_total(s0);
    lemma_ground_total_nonneg(d[n].moveable_ground);
    let di = d[i].with_ground(removed_from(s0, t.removed as nat)).flagged(true);
    let dn = d[n].with_ground(added(d[n].moveable_ground, t.material, t.applied)).flagged(true);
    let d1 = d.update(i, di);
    assert(apply(d, t) == d1.update(n, dn));
    assert forall|m: MaterialId| #![trigger total_amount(apply(d, t), m)]
        total_amount(apply(d, t), m) == total_amount(d, m) - if t.material == m {
            t.removed - t.applied
        } else {
            0
        } by {
        lemma_removed_within_top(s0, t.removed as nat, m);
        lemma_added_totals(d[n].moveable_ground, t.material, t.applied, m);
        lemma_total_update(d, i, di, m);
        lemma_total_update(d1, n, dn, m);
    }
    lemma_removed_within_top(s0, t.removed as nat, MaterialId::Empty);
    lemma_added_totals(d[n].moveable_ground, t.material, t.applied, MaterialId::Empty);
    let a = apply(d, t);
    assert forall|j: int| 0 <= j < a.len() implies (#[trigger] a[j]).fits() by {
        if j != i && j != n {
            assert(d[j].fits());
        }
    }
}

/// The lowest neighbour found is one of the neighbours looked at.
proof fn lemma_lowest_is_neighbour(s: Seq<CellView>, w: int, h: int, i: int, k: int)
    ensures
        lowest_upto(s, w, h, i, k) is Some ==> exists|e: int|
            0 <= e < k && neighbour(w, h, i, e) == lowest_upto(s, w, h, i, k),
    decreases k,
{
    if k > 0 {
        lemma_lowest_is_neighbour(s, w, h, i, k - 1);
        let r = lowest_upto(s, w, h, i, k);
        if r is Some {
            if neighbour(w, h, i, k - 1) == r {
                assert(0 <= k - 1 < k && neighbour(w, h, i, k - 1) == r);
            } else {
                let e = choose|e: int|
                    0 <= e < k - 1 && neighbour(w, h, i, e) == lowest_upto(s, w, h, i, k - 1);
                assert(0 <= e < k && neighbour(w, h, i, e) == r);
            }
        }
    }
}

/// Runs the granular rule for column `i`: reads the snapshot `src`, writes
/// `dst`, and returns the transfer made, if any.
fn granular_step(src: &Grid, dst: &mut Grid, i: usize, cfg: &SimConfig) -> (r: Option<Transfer>)
    requires
        src@.wf(),
        all_fit(src@.cells),
        i < src@.cells.len(),
        tracks(src@, old(dst)@.cells),
    ensures
        r == plan(src@, old(dst)@.cells, i as int, *cfg),
        r matches Some(t) ==> final(dst)@ == (GridView { cells: apply(old(dst)@.cells, t), ..old(dst)@ }),
        r is None ==> final(dst)@ == old(dst)@,
{
    let ghost d = dst@.cells;
    let scells = src.get_cells();
    assert(scells@[i as int]@ == src@.cells[i as int]);
    let c = &scells[i];
    let dcells = dst.get_cells();
    assert(dcells@[i as int]@ == d[i as int]);
    if dcells[i].was_generated_this_tick() {
        return None;
    }
    let n = c.moveable_ground.len();
    if n == 0 {
        return None;
    }
    let top = c.moveable_ground[n - 1];
    if !top.material_id.is_granular() || top.thickness == 0 {
        return None;
    }
    let low = lowest_neighbour_of(src, i);
    let (nb, hn) = match low {
        None => {
            return None;
        },
        Some(p) => p,
    };
    let hc = c.column_thickness();
    if hc <= hn || hc - hn <= cfg.slope_threshold as usize {
        return None;
    }
    let half = (hc - hn) / 2;
    let mut amount = cfg.max_transfer_per_pass as usize;
    if half < amount {
        amount = half;
    }
    if top.thickness < amount {
        amount = top.thickness;
    }
    proof {
        lemma_step_keeps(src@, d, i as int, *cfg);
        assert(d[i as int] == src@.cells[i as int].flagged(false));
        lemma_top_le_total(d[i as int].moveable_ground);
    }
    let ghost t = plan(src@, d, i as int, *cfg)->0;
    let cells = dst.get_cells_mut();
    assert(cells@[nb as int]@ == d[nb as int]);
    assert(cells@[i as int]@ == d[i as int]);
    let ghost v0 = cells@;
    let removed = cells[i].remove_layer(amount);
    assert(forall|j: int| 0 <= j < v0.len() && j != i ==> cells@[j] == v0[j]);
    let tot = cells[nb].total_moveable_thickness();
    let hgt = cells[nb].column_thickness();
    let cap = cfg.max_total_moveable_height as usize;
    let mut applied = if tot < cap {
        cap - tot
    } else {
        0
    };
    if usize::MAX - hgt < applied {
        applied = usize::MAX - hgt;
    }
    if removed < applied {
        applied = removed;
    }
    let ghost v1 = cells@;
    cells[nb].add_layer(top.material_id, applied);
    assert(forall|j: int| 0 <= j < v0.len() && j != nb ==> cells@[j] == v1[j]);
    let ghost v2 = cells@;
    assert(removed == amount);
    assert(v2[nb as int]@ == d[nb as int].with_ground(added(d[nb as int].moveable_ground, t.material, t.applied)));
    assert(v2[i as int]@ == d[i as int].with_ground(removed_from(d[i as int].moveable_ground, t.removed as nat)));
    cells[i].set_generated_this_tick(true);
    let ghost v3 = cells@;
    assert(forall|j: int| 0 <= j < v0.len() && j != i ==> cells@[j] == v2[j]);
    cells[nb].set_generated_this_tick(true);
    assert(forall|j: int| 0 <= j < v0.len() && j != nb ==> cells@[j] == v3[j]);
    let r = Transfer { from: i, to: nb, material: top.material_id, removed, applied };
    let ghost a = apply(d, t);
    assert forall|j: int| 0 <= j < d.len() implies views(cells@)[j] == a[j] by {
        assert(views(cells@)[j] == cells@[j]@);
        if j != i && j != nb {
            assert(cells@[j] == v0[j]);
            assert(v0[j]@ == d[j]);
        }
    }
    assert(views(cells@) =~= a);
    Some(r)
}

/// Clearing the flags changes no amount.
proof fn lemma_total_cleared(s: Seq<CellView>, m: MaterialId)
    ensures
        total_amount(cleared(s), m) == total_amount(s, m),
    decreases s.len(),
{
    if s.len() > 0 {
        assert(cleared(s).drop_last() =~= cleared(s.drop_last()));
        lemma_total_cleared(s.drop_last(), m);
    }
}

/// On a settled snapshot no column plans a transfer.
proof fn lemma_settled_plans_nothing(src: GridView, d: Seq<CellView>, i: int, cfg: SimConfig)
    requires
        src.wf(),
        0 <= i < src.cells.len(),
        settled(src, cfg),
    ensures
        plan(src, d, i, cfg) is None,
{
    let w = src.width as int;
    let h = src.height as int;
    lemma_lowest_is_neighbour(src.cells, w, h, i, 4);
    if lowest_neighbour(src, i) is Some {
        let e = choose|e: int|
            0 <= e < 4 && neighbour(w, h, i, e) == lowest_upto(src.cells, w, h, i, 4);
        assert(gentle(src, i, e, cfg));
    }
}

/// Resets the scratch flag of every column.
fn clear_flags(cells: &mut Vec<Cell>)
    ensures
        views(final(cells)@) == cleared(views(old(cells)@)),
{
    let mut j: usize = 0;
    while j < cells.len()
        invariant
            j <= cells@.len(),
            cells@.len() == old(cells)@.len(),
            forall|q: int| 0 <= q < j ==> (#[trigger] cells@[q])@ == old(cells)@[q]@.flagged(false),
            forall|q: int| j <= q < cells@.len() ==> (#[trigger] cells@[q]) == old(cells)@[q],
        decreases cells@.len() - j,
    {
        cells[j].set_generated_this_tick(false);
        j += 1;
    }
    assert(views(cells@) =~= cleared(views(old(cells)@)));
}

/// The granular-transport pass. Every column whose top ground layer is
/// granular, and that this pass has not yet written, sends material to its
/// strictly lowest neighbour in the snapshot `src` when it stands higher than
/// that neighbour by more than the slope threshold: half the difference at
/// most, no more than `max_transfer_per_pass` and than its top layer holds.
/// The neighbour keeps what fits under `max_total_moveable_height`; the rest
/// is lost. Both columns are then marked. `dst` starts as a copy of `src`
/// (flags aside) and ends as the pass's result; the transfers are returned.
pub fn update_granular(src: &Grid, dst: &mut Grid, cfg: &SimConfig) -> (transfers: Vec<Transfer>)
    requires
        src@.wf(),
        all_fit(src@.cells),
        old(dst)@.width == src@.width,
        old(dst)@.height == src@.height,
        cleared(old(dst)@.cells) == cleared(src@.cells),
    ensures
        final(dst)@ == (GridView { cells: granular_result(src@, *cfg).0, ..old(dst)@ }),
        transfers@ == granular_result(src@, *cfg).1,
        forall|m: MaterialId|
            #![trigger total_amount(final(dst)@.cells, m)]
            total_amount(final(dst)@.cells, m) == total_amount(src@.cells, m) - clipped(
                transfers@,
                m,
            ),
        forall|q: int|
            0 <= q < transfers@.len() ==> (#[trigger] transfers@[q]).applied <= transfers@[q].removed,
        settled(src@, *cfg) ==> final(dst)@.cells == cleared(src@.cells) && transfers@.len() == 0,
        all_fit(final(dst)@.cells),
        final(dst)@.cells.len() == src@.cells.len(),
{
    let ghost d0 = dst@;
    clear_flags(dst.get_cells_mut());
    let scells = src.get_cells();
    let len = scells.len();
    proof {
        assert(views(scells@).len() == len);
        assert forall|m: MaterialId| #![trigger total_amount(dst@.cells, m)]
            total_amount(dst@.cells, m) == total_amount(src@.cells, m) - clipped(
                Seq::<Transfer>::empty(),
                m,
            ) by {
            lemma_total_cleared(src@.cells, m);
        }
        let d = dst@.cells;
        assert forall|j: int| 0 <= j < d.len() implies (#[trigger] d[j]).fits() by {
            assert(d[j] == src@.cells[j].flagged(false));
        }
    }
    let rev = cfg.alternate_scan_direction && src.get_step() % 2 == 1;
    let mut ts: Vec<Transfer> = Vec::new();
    let mut k: usize = 0;
    while k < len
        invariant
            k <= len,
            len == src@.cells.len(),
            src@.wf(),
            all_fit(src@.cells),
            rev == reversed(src@, *cfg),
            dst@ == (GridView { cells: sweep(src@, *cfg, k as nat).0, ..d0 }),
            ts@ == sweep(src@, *cfg, k as nat).1,
            tracks(src@, dst@.cells),
            forall|m: MaterialId|
                #![trigger total_amount(dst@.cells, m)]
                total_amount(dst@.cells, m) == total_amount(src@.cells, m) - clipped(ts@, m),
            forall|q: int| 0 <= q < ts@.len() ==> (#[trigger] ts@[q]).applied <= ts@[q].removed,
            settled(src@, *cfg) ==> dst@.cells == cleared(src@.cells) && ts@.len() == 0,
        decreases len - k,
    {
        let i = if rev {
            len - 1 - k
        } else {
            k
        };
        let ghost d = dst@.cells;
        proof {
            if settled(src@, *cfg) {
                lemma_settled_plans_nothing(src@, d, i as int, *cfg);
            }
        }
        let r = granular_step(src, dst, i, cfg);
        if let Some(t) = r {
            proof {
                lemma_step_keeps(src@, d, i as int, *cfg);
            }
            let ghost ts0 = ts@;
            ts.push(t);
            proof {
                assert(ts@.drop_last() =~= ts0);
                assert forall|m: MaterialId| #![trigger total_amount(dst@.cells, m)]
                    total_amount(dst@.cells, m) == total_amount(src@.cells, m) - clipped(ts@, m) by {
                    assert(total_amount(apply(d, t), m) == total_amount(d, m) - if t.material == m {
                        t.removed - t.applied
                    } else {
                        0
                    });
                }
            }
        }
        k += 1;
    }
    ts
}

/// A one-column grid has no neighbours, so it is always settled.
proof fn lemma_single_column_settled(g: GridView, cfg: SimConfig)
    requires
        g.wf(),
        g.width == 1,
        g.height == 1,
    ensures
        settled(g, cfg),
{
    assert forall|i: int, d: int| 0 <= i < g.cells.len() && 0 <= d < 4 implies #[trigger] gentle(
        g,
        i,
        d,
        cfg,
    ) by {
        assert(i == 0);
        assert(neighbour(1, 1, 0, d) is None);
    }
}

/// Advances grids one tick at a time under a fixed configuration.
pub struct Simulator {
    pub config: SimConfig,
}

impl Default for Simulator {
    fn default() -> (r: Simulator)
        ensures
            r.config == (SimConfig {
                max_total_moveable_height: 64,
                max_transfer_per_pass: 4,
                alternate_scan_direction: true,
                max_fire_height: 8,
                slope_threshold: 1,
            }),
    {
        Self::new(SimConfig::default())
    }
}

impl Simulator {
    pub fn new(config: SimConfig) -> (r: Self)
        ensures
            r.config == config,
    {
        Self { config }
    }

    /// Computes the next snapshot of `world`: a copy with the step counter
    /// advanced once and the rule passes run on it in their fixed order,
    /// each reading `world` and writing the copy. Of the passes (reactions,
    /// combustion, granular transport, liquid flow, settling) this core
    /// defines granular transport; `world` itself is left as it is.
    pub fn advance_tick(&mut self, world: &mut Grid) -> (r: Grid)
        requires
            old(world)@.wf(),
            all_fit(old(world)@.cells),
        ensures
            *final(self) == *old(self),
            final(world)@ == old(world)@,
            r@.wf(),
            all_fit(r@.cells),
            r@.width == old(world)@.width,
            r@.height == old(world)@.height,
            r@.step == next_step(old(world)@.step),
            r@.cells == granular_result(old(world)@, old(self).config).0,
            forall|m: MaterialId|
                #![trigger total_amount(r@.cells, m)]
                total_amount(r@.cells, m) == total_amount(old(world)@.cells, m) - clipped(
                    granular_result(old(world)@, old(self).config).1,
                    m,
                ),
            settled(old(world)@, old(self).config) ==> r@.cells == cleared(old(world)@.cells),
            old(world)@.width == 1 && old(world)@.height == 1 ==> r@.cells == cleared(
                old(world)@.cells,
            ),
    {
        let src: &Grid = world;
        let mut dst = src.snapshot();
        dst.increment_step();
        proof {
            if src@.width == 1 && src@.height == 1 {
                lemma_single_column_settled(src@, self.config);
            }
        }
        let _transfers = update_granular(src, &mut dst, &self.config);
        dst
    }
}

} // verus!
