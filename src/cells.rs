//! Materials, layers and the per-column layer stack.
use vstd::prelude::*;

verus! {

/// The closed set of materials a column can hold.
#[derive(Clone, Copy, Debug, PartialEq, Eq, Structural)]
pub enum MaterialId {
    Empty,
    Rock,
    Sand,
    Water,
    Oil,
    Fire,
}

/// Whether a material flows as a granular solid.
pub open spec fn granular(m: MaterialId) -> bool {
    m == MaterialId::Sand
}

/// Whether a material flows as a liquid.
pub open spec fn liquid(m: MaterialId) -> bool {
    m == MaterialId::Water || m == MaterialId::Oil
}

/// Whether a material burns.
pub open spec fn flammable(m: MaterialId) -> bool {
    m == MaterialId::Oil || m == MaterialId::Fire
}

impl MaterialId {
    /// Registry lookup: the material is a granular solid.
    pub fn is_granular(self) -> (r: bool)
        ensures
            r == granular(self),
    {
        match self {
            MaterialId::Sand => true,
            _ => false,
        }
    }

    /// Registry lookup: the material is a liquid.
    pub fn is_liquid(self) -> (r: bool)
        ensures
            r == liquid(self),
    {
        match self {
            MaterialId::Water | MaterialId::Oil => true,
            _ => false,
        }
    }

    /// Registry lookup: the material burns.
    pub fn is_flammable(self) -> (r: bool)
        ensures
            r == flammable(self),
    {
        match self {
            MaterialId::Oil | MaterialId::Fire => true,
            _ => false,
        }
    }
}

/// A homogeneous run of one material.
#[derive(Clone, Copy, Debug, PartialEq, Eq, Structural)]
pub struct Layer {
    pub material_id: MaterialId,
    pub thickness: usize,
}

/// The canonical empty layer.
pub open spec fn empty_layer() -> Layer {
    Layer { material_id: MaterialId::Empty, thickness: 0 }
}

/// A layer holds nothing when it is thin to nothing or tagged `Empty`.
pub open spec fn layer_is_empty(l: Layer) -> bool {
    l.thickness == 0 || l.material_id == MaterialId::Empty
}

impl Default for Layer {
    fn default() -> (r: Layer)
        ensures
            r == empty_layer(),
    {
        Layer { material_id: MaterialId::Empty, thickness: 0 }
    }
}

impl Layer {
    /// The empty sentinel, always tagged `Empty`.
    pub fn empty() -> (r: Layer)
        ensures
            r == empty_layer(),
    {
        Layer { material_id: MaterialId::Empty, thickness: 0 }
    }

    pub fn is_empty(&self) -> (r: bool)
        ensures
            r == layer_is_empty(*self),
    {
        self.thickness == 0 || self.material_id == MaterialId::Empty
    }
}


/// Sum of the thicknesses of a stack.
pub open spec fn ground_total(s: Seq<Layer>) -> int
    decreases s.len(),
{
    if s.len() == 0 {
        0
    } else {
        ground_total(s.drop_last()) + s.last().thickness
    }
}

/// Thickness of material `m` held across a stack.
pub open spec fn amount_in(s: Seq<Layer>, m: MaterialId) -> int
    decreases s.len(),
{
    if s.len() == 0 {
        0
    } else {
        amount_in(s.drop_last(), m) + if s.last().material_id == m {
            s.last().thickness as int
        } else {
            0
        }
    }
}

/// The material of the topmost layer of a stack that is not empty.
pub open spec fn topmost_material(s: Seq<Layer>) -> Option<MaterialId>
    decreases s.len(),
{
    if s.len() == 0 {
        None
    } else if !layer_is_empty(s.last()) {
        Some(s.last().material_id)
    } else {
        topmost_material(s.drop_last())
    }
}

/// No two adjacent layers of a stack share a material.
pub open spec fn coalesced(s: Seq<Layer>) -> bool {
    forall|i: int| 0 <= i < s.len() - 1 ==> #[trigger] s[i].material_id != s[i + 1].material_id
}

/// The stack after adding `t` of material `m` on top.
pub open spec fn added(s: Seq<Layer>, m: MaterialId, t: usize) -> Seq<Layer> {
    if t == 0 {
        s
    } else if s.len() > 0 && s.last().material_id == m {
        s.update(s.len() - 1, Layer { material_id: m, thickness: (s.last().thickness + t) as usize })
    } else {
        s.push(Layer { material_id: m, thickness: t })
    }
}

/// The stack after taking up to `t` off the top, whole layers first.
pub open spec fn removed_from(s: Seq<Layer>, t: nat) -> Seq<Layer>
    decreases s.len(),
{
    if t == 0 || s.len() == 0 {
        s
    } else if s.last().thickness <= t {
        removed_from(s.drop_last(), (t - s.last().thickness) as nat)
    } else {
        s.drop_last().push(
            Layer { material_id: s.last().material_id, thickness: (s.last().thickness - t) as usize },
        )
    }
}

/// The top layer of the stack is of material `m`.
pub open spec fn tops_match(s: Seq<Layer>, m: MaterialId) -> bool {
    s.len() > 0 && s.last().material_id == m
}

pub open spec fn min(a: int, b: int) -> int {
    if a <= b {
        a
    } else {
        b
    }
}

pub proof fn lemma_ground_total_nonneg(s: Seq<Layer>)
    ensures
        ground_total(s) >= 0,
        amount_in(s, MaterialId::Empty) >= 0,
    decreases s.len(),
{
    if s.len() > 0 {
        lemma_ground_total_nonneg(s.drop_last());
    }
}

pub proof fn lemma_amount_le_total(s: Seq<Layer>, m: MaterialId)
    ensures
        0 <= amount_in(s, m) <= ground_total(s),
    decreases s.len(),
{
    if s.len() > 0 {
        lemma_amount_le_total(s.drop_last(), m);
    }
}

/// Totals after replacing the top layer of a stack.
pub proof fn lemma_totals_replace_top(s: Seq<Layer>, l: Layer, m: MaterialId)
    requires
        s.len() > 0,
    ensures
        ground_total(s.update(s.len() - 1, l)) == ground_total(s) - s.last().thickness + l.thickness,
        amount_in(s.update(s.len() - 1, l), m) == amount_in(s, m) - (if s.last().material_id == m {
            s.last().thickness as int
        } else {
            0
        }) + (if l.material_id == m {
            l.thickness as int
        } else {
            0
        }),
{
    let u = s.update(s.len() - 1, l);
    assert(u.drop_last() =~= s.drop_last());
}

/// Totals after pushing a layer.
pub proof fn lemma_totals_push(s: Seq<Layer>, l: Layer, m: MaterialId)
    ensures
        ground_total(s.push(l)) == ground_total(s) + l.thickness,
        amount_in(s.push(l), m) == amount_in(s, m) + (if l.material_id == m {
            l.thickness as int
        } else {
            0
        }),
{
    assert(s.push(l).drop_last() =~= s);
}

/// What adding does to the totals of a stack.
pub proof fn lemma_added_totals(s: Seq<Layer>, m: MaterialId, t: usize, q: MaterialId)
    requires
        ground_total(s) + t <= usize::MAX,
    ensures
        ground_total(added(s, m, t)) == ground_total(s) + t,
        amount_in(added(s, m, t), q) == amount_in(s, q) + if m == q {
            t as int
        } else {
            0
        },
{
    if t > 0 {
        if s.len() > 0 && s.last().material_id == m {
            lemma_ground_total_nonneg(s.drop_last());
            lemma_totals_replace_top(
                s,
                Layer { material_id: m, thickness: (s.last().thickness + t) as usize },
                q,
            );
        } else {
            lemma_totals_push(s, Layer { material_id: m, thickness: t }, q);
        }
    }
}

/// Removing no more than the top layer holds takes it from that layer alone.
pub proof fn lemma_removed_within_top(s: Seq<Layer>, t: nat, q: MaterialId)
    requires
        s.len() > 0,
        t <= s.last().thickness,
    ensures
        ground_total(removed_from(s, t)) == ground_total(s) - t,
        amount_in(removed_from(s, t), q) == amount_in(s, q) - if s.last().material_id == q {
            t as int
        } else {
            0
        },
{
    if t == s.last().thickness && t > 0 {
        assert(removed_from(s.drop_last(), 0) == s.drop_last());
    } else if t > 0 {
        lemma_totals_push(
            s.drop_last(),
            Layer { material_id: s.last().material_id, thickness: (s.last().thickness - t) as usize },
            q,
        );
    }
}

/// Adding `t` of a material on top of a stack and then taking `t` off
/// removes exactly `t` and gives back the stack as it was. (A top layer of
/// thickness 0 of the same material is the exception: it would take the
/// added material in and then leave with it.)
pub proof fn lemma_add_remove_round_trip(s: Seq<Layer>, m: MaterialId, t: usize)
    requires
        ground_total(s) + t <= usize::MAX,
        !(tops_match(s, m) && s.last().thickness == 0),
    ensures
        removed_from(added(s, m, t), t as nat) == s,
        min(t as int, ground_total(added(s, m, t))) == t,
{
    lemma_added_totals(s, m, t, m);
    lemma_ground_total_nonneg(s);
    if t > 0 {
        let a = added(s, m, t);
        if tops_match(s, m) {
            assert(a.drop_last() =~= s.drop_last());
            assert(a.drop_last().push(Layer { material_id: m, thickness: s.last().thickness })
                =~= s);
        } else {
            assert(a.drop_last() =~= s);
            assert(removed_from(s, 0) == s);
        }
    }
}

/// One grid column: terrain base, moveable stack, liquid on top, and a
/// scratch flag marking columns written by the pass under way.
#[derive(Clone, Debug)]
pub struct Cell {
    pub immoveable_ground_level: usize,
    pub moveable_ground: Vec<Layer>,
    pub moveable_liquid: Layer,
    pub generated_this_tick: bool,
}

/// The mathematical content of a column.
pub struct CellView {
    pub immoveable_ground_level: usize,
    pub moveable_ground: Seq<Layer>,
    pub moveable_liquid: Layer,
    pub generated_this_tick: bool,
}

impl View for Cell {
    type V = CellView;

    open spec fn view(&self) -> CellView {
        CellView {
            immoveable_ground_level: self.immoveable_ground_level,
            moveable_ground: self.moveable_ground@,
            moveable_liquid: self.moveable_liquid,
            generated_this_tick: self.generated_this_tick,
        }
    }
}

impl CellView {
    /// Sum of the moveable ground and the liquid.
    pub open spec fn total_moveable(self) -> int {
        ground_total(self.moveable_ground) + self.moveable_liquid.thickness
    }

    /// Terrain base plus everything moveable on it.
    pub open spec fn height(self) -> int {
        self.immoveable_ground_level + self.total_moveable()
    }

    /// Thickness of `m` in the stack and the liquid layer.
    pub open spec fn amount(self, m: MaterialId) -> int {
        amount_in(self.moveable_ground, m) + if self.moveable_liquid.material_id == m {
            self.moveable_liquid.thickness as int
        } else {
            0
        }
    }

    /// The column's height is representable.
    pub open spec fn fits(self) -> bool {
        self.height() <= usize::MAX
    }

    /// What the surface of the column is made of.
    pub open spec fn surface(self) -> MaterialId {
        if !layer_is_empty(self.moveable_liquid) {
            self.moveable_liquid.material_id
        } else if topmost_material(self.moveable_ground) is Some {
            topmost_material(self.moveable_ground)->0
        } else if self.immoveable_ground_level > 0 {
            MaterialId::Rock
        } else {
            MaterialId::Empty
        }
    }

    /// The same column with the scratch flag set to `v`.
    pub open spec fn flagged(self, v: bool) -> CellView {
        CellView { generated_this_tick: v, ..self }
    }

    /// The same column with its stack replaced by `g`.
    pub open spec fn with_ground(self, g: Seq<Layer>) -> CellView {
        CellView { moveable_ground: g, ..self }
    }
}

impl Default for Cell {
    fn default() -> (r: Cell)
        ensures
            r.immoveable_ground_level == 0,
            r@.moveable_ground == Seq::<Layer>::empty(),
            r.moveable_liquid == empty_layer(),
            !r.generated_this_tick,
    {
        Cell {
            immoveable_ground_level: 0,
            moveable_ground: Vec::new(),
            moveable_liquid: Layer::empty(),
            generated_this_tick: false,
        }
    }
}

impl Cell {
    /// A fresh column: no terrain, no moveable material.
    pub fn new(_id: usize, _x_cord: usize, _y_cord: usize) -> (r: Self)
        ensures
            r.immoveable_ground_level == 0,
            r@.moveable_ground == Seq::<Layer>::empty(),
            r.moveable_liquid == empty_layer(),
            !r.generated_this_tick,
    {
        Self::default()
    }

    /// An exact copy of the column, flag included.
    pub fn duplicate(&self) -> (r: Cell)
        ensures
            r@ == self@,
    {
        let mut g: Vec<Layer> = Vec::with_capacity(self.moveable_ground.len());
        let mut i: usize = 0;
        while i < self.moveable_ground.len()
            invariant
                i <= self.moveable_ground@.len(),
                g@ == self.moveable_ground@.subrange(0, i as int),
            decreases self.moveable_ground@.len() - i,
        {
            g.push(self.moveable_ground[i]);
            i += 1;
            assert(g@ =~= self.moveable_ground@.subrange(0, i as int));
        }
        assert(g@ =~= self.moveable_ground@);
        let r = Cell {
            immoveable_ground_level: self.immoveable_ground_level,
            moveable_ground: g,
            moveable_liquid: self.moveable_liquid,
            generated_this_tick: self.generated_this_tick,
        };
        assert(r.moveable_ground@ == self.moveable_ground@);
        r
    }

    /// Sum of every moveable layer's thickness, liquid included.
    pub fn total_moveable_thickness(&self) -> (r: usize)
        requires
            self@.total_moveable() <= usize::MAX,
        ensures
            r == self@.total_moveable(),
    {
        let mut sum: usize = 0;
        let mut i: usize = 0;
        while i < self.moveable_ground.len()
            invariant
                i <= self.moveable_ground@.len(),
                sum == ground_total(self.moveable_ground@.subrange(0, i as int)),
                self@.total_moveable() <= usize::MAX,
            decreases self.moveable_ground@.len() - i,
        {
            proof {
                let s = self.moveable_ground@;
                assert(s.subrange(0, i + 1).drop_last() =~= s.subrange(0, i as int));
                lemma_prefix_total_le(s, i + 1);
                lemma_ground_total_nonneg(self.moveable_ground@);
            }
            sum = sum + self.moveable_ground[i].thickness;
            i += 1;
        }
        assert(self.moveable_ground@.subrange(0, i as int) =~= self.moveable_ground@);
        sum + self.moveable_liquid.thickness
    }

    /// Terrain base plus all moveable material.
    pub fn column_thickness(&self) -> (r: usize)
        requires
            self@.fits(),
        ensures
            r == self@.height(),
    {
        proof {
            lemma_ground_total_nonneg(self.moveable_ground@);
        }
        self.immoveable_ground_level + self.total_moveable_thickness()
    }
}

impl Cell {
    /// The material at the surface of the column.
    pub fn surface_material_id(&self) -> (r: MaterialId)
        ensures
            r == self@.surface(),
    {
        if !self.moveable_liquid.is_empty() {
            return self.moveable_liquid.material_id;
        }
        let mut i: usize = self.moveable_ground.len();
        assert(self.moveable_ground@.subrange(0, i as int) =~= self.moveable_ground@);
        while i > 0
            invariant
                i <= self.moveable_ground@.len(),
                layer_is_empty(self.moveable_liquid),
                topmost_material(self.moveable_ground@) == topmost_material(
                    self.moveable_ground@.subrange(0, i as int),
                ),
            decreases i,
        {
            let layer = self.moveable_ground[i - 1];
            assert(self.moveable_ground@.subrange(0, i as int).drop_last() =~= self.moveable_ground@.subrange(0, i - 1));
            assert(self.moveable_ground@.subrange(0, i as int).last() == layer);
            if !layer.is_empty() {
                assert(topmost_material(self.moveable_ground@.subrange(0, i as int)) == Some(
                    layer.material_id,
                ));
                return layer.material_id;
            }
            i -= 1;
        }
        if self.immoveable_ground_level > 0 {
            MaterialId::Rock
        } else {
            MaterialId::Empty
        }
    }

    /// Thickness of `material_id` in the stack and the liquid layer.
    pub fn get_amount(&self, material_id: MaterialId) -> (r: usize)
        requires
            self@.total_moveable() <= usize::MAX,
        ensures
            r == self@.amount(material_id),
    {
        let ghost s = self.moveable_ground@;
        let mut total: usize = 0;
        let mut i: usize = 0;
        while i < self.moveable_ground.len()
            invariant
                i <= s.len(),
                s == self.moveable_ground@,
                total == amount_in(s.subrange(0, i as int), material_id),
                self@.total_moveable() <= usize::MAX,
            decreases s.len() - i,
        {
            proof {
                assert(s.subrange(0, i + 1).drop_last() =~= s.subrange(0, i as int));
                lemma_prefix_total_le(s, i + 1);
                lemma_amount_le_total(s.subrange(0, i + 1), material_id);
            }
            let layer = self.moveable_ground[i];
            if layer.material_id == material_id {
                total += layer.thickness;
            }
            i += 1;
        }
        assert(s.subrange(0, i as int) =~= s);
        if self.moveable_liquid.material_id == material_id {
            proof {
                lemma_amount_le_total(s, material_id);
            }
            total += self.moveable_liquid.thickness;
        }
        total
    }

    pub fn set_generated_this_tick(&mut self, value: bool)
        ensures
            final(self)@ == old(self)@.flagged(value),
    {
        self.generated_this_tick = value;
    }

    pub fn was_generated_this_tick(&self) -> (r: bool)
        ensures
            r == self@.generated_this_tick,
    {
        self.generated_this_tick
    }

    /// Puts `thickness` of `material_id` on top of the stack, merging it into
    /// the top layer when that layer is of the same material.
    pub fn add_layer(&mut self, material_id: MaterialId, thickness: usize)
        requires
            ground_total(old(self)@.moveable_ground) + thickness <= usize::MAX,
        ensures
            final(self)@ == old(self)@.with_ground(
                added(old(self)@.moveable_ground, material_id, thickness),
            ),
            tops_match(old(self)@.moveable_ground, material_id)
                ==> final(self)@.moveable_ground.len() == old(self)@.moveable_ground.len(),
            thickness > 0 && !tops_match(old(self)@.moveable_ground, material_id)
                ==> final(self)@.moveable_ground.len() == old(self)@.moveable_ground.len() + 1,
            coalesced(old(self)@.moveable_ground) ==> coalesced(final(self)@.moveable_ground),
    {
        let ghost s = self.moveable_ground@;
        if thickness == 0 {
            return;
        }
        let n = self.moveable_ground.len();
        if n > 0 {
            let top = self.moveable_ground[n - 1];
            if top.material_id == material_id {
                proof {
                    assert(s.drop_last().push(s.last()) =~= s);
                    lemma_totals_push(s.drop_last(), s.last(), material_id);
                    lemma_ground_total_nonneg(s.drop_last());
                }
                let l = Layer { material_id, thickness: top.thickness + thickness };
                self.moveable_ground.set(n - 1, l);
                proof {
                    lemma_coalesced_replace_top(s, l);
                }
                return;
            }
        }
        let l = Layer { material_id, thickness };
        self.moveable_ground.push(l);
        proof {
            lemma_coalesced_push(s, l);
        }
    }

    /// Takes up to `thickness` off the top of the stack, popping whole layers
    /// and thinning the first one not used up. Returns how much came off.
    pub fn remove_layer(&mut self, thickness: usize) -> (r: usize)
        ensures
            r == min(thickness as int, ground_total(old(self)@.moveable_ground)),
            final(self)@ == old(self)@.with_ground(
                removed_from(old(self)@.moveable_ground, thickness as nat),
            ),
            ground_total(final(self)@.moveable_ground) == ground_total(old(self)@.moveable_ground)
                - r,
    {
        let ghost s0 = self.moveable_ground@;
        let mut left: usize = thickness;
        while left > 0 && self.moveable_ground.len() > 0
            invariant
                left <= thickness,
                removed_from(self.moveable_ground@, left as nat) == removed_from(s0, thickness as nat),
                thickness - left == ground_total(s0) - ground_total(self.moveable_ground@),
                self.immoveable_ground_level == old(self).immoveable_ground_level,
                self.moveable_liquid == old(self).moveable_liquid,
                self.generated_this_tick == old(self).generated_this_tick,
                s0 == old(self)@.moveable_ground,
            decreases self.moveable_ground@.len() + left,
        {
            let n = self.moveable_ground.len();
            let top = self.moveable_ground[n - 1];
            let ghost s = self.moveable_ground@;
            if top.thickness <= left {
                left -= top.thickness;
                self.moveable_ground.pop();
                assert(self.moveable_ground@ =~= s.drop_last());
            } else {
                let l = Layer { material_id: top.material_id, thickness: top.thickness - left };
                self.moveable_ground.set(n - 1, l);
                proof {
                    assert(self.moveable_ground@ =~= s.drop_last().push(l));
                    lemma_totals_push(s.drop_last(), l, MaterialId::Empty);
                    assert(removed_from(self.moveable_ground@, 0) == self.moveable_ground@);
                }
                left = 0;
            }
        }
        proof {
            lemma_ground_total_nonneg(self.moveable_ground@);
            if left > 0 {
                assert(self.moveable_ground@.len() == 0);
            }
        }
        thickness - left
    }
}

/// Replacing the top by a layer of the same material keeps a stack coalesced.
pub proof fn lemma_coalesced_replace_top(s: Seq<Layer>, l: Layer)
    requires
        s.len() > 0,
        s.last().material_id == l.material_id,
    ensures
        coalesced(s) ==> coalesced(s.update(s.len() - 1, l)),
{
    let u = s.update(s.len() - 1, l);
    if coalesced(s) {
        assert forall|i: int| 0 <= i < u.len() - 1 implies #[trigger] u[i].material_id != u[i
            + 1].material_id by {
            assert(s[i].material_id != s[i + 1].material_id);
        }
    }
}

/// Pushing a layer of another material than the top keeps a stack coalesced.
pub proof fn lemma_coalesced_push(s: Seq<Layer>, l: Layer)
    requires
        s.len() == 0 || s.last().material_id != l.material_id,
    ensures
        coalesced(s) ==> coalesced(s.push(l)),
{
    let u = s.push(l);
    if coalesced(s) {
        assert forall|i: int| 0 <= i < u.len() - 1 implies #[trigger] u[i].material_id != u[i
            + 1].material_id by {
            if i < s.len() - 1 {
                assert(s[i].material_id != s[i + 1].material_id);
            }
        }
    }
}

/// A prefix of a stack holds no more than the stack.
pub proof fn lemma_prefix_total_le(s: Seq<Layer>, k: int)
    requires
        0 <= k <= s.len(),
    ensures
        ground_total(s.subrange(0, k)) <= ground_total(s),
    decreases s.len() - k,
{
    if k < s.len() {
        lemma_prefix_total_le(s, k + 1);
        assert(s.subrange(0, k + 1).drop_last() =~= s.subrange(0, k));
    } else {
        assert(s.subrange(0, k) =~= s);
    }
}

} // verus!
