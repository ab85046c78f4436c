//! Flattening a layer into indexed quads, one per window, back to front.
use vstd::prelude::*;
use crate::layer::{window_added, CluiColor, CluiLayer, CluiUiRect, CluiWindowKey, LayerView, MAX_WINDOWS};
use crate::rect::{Corner, Rect};
use crate::scalar::{Point, Scalar};
use crate::size::Size;

verus! {

/// A corner of a window's quad: its position in sub-pixel units and the
/// window's colour.
#[derive(Clone, Copy, PartialEq, Eq, Structural, Debug, Hash)]
pub struct CluiVertex {
    pub x: i64,
    pub y: i64,
    pub color: CluiColor,
}

/// One window's slice of a draw set: `index_count` indices from
/// `index_offset`, each counted from the vertex at `vertex_offset`.
#[derive(Clone, Copy, PartialEq, Eq, Structural, Debug, Hash)]
pub struct DrawInstruction {
    pub index_offset: u32,
    pub index_count: u32,
    pub vertex_offset: u32,
}

/// Everything a renderer needs to paint one layer.
#[derive(Clone, Debug)]
pub struct CluiDrawSet {
    pub viewport: Size,
    pub scissor: Rect,
    pub draws: Vec<DrawInstruction>,
    pub vertices: Vec<CluiVertex>,
    pub indices: Vec<u32>,
}

/// The draw sets of all layers, bottom layer first.
#[derive(Clone, Debug)]
pub struct CluiDrawList {
    pub draw_sets: Vec<CluiDrawSet>,
}

/// Window `a` (with content `wa`) is painted before window `b`: it lies
/// deeper, or as deep and was added earlier.
pub open spec fn precedes(a: CluiWindowKey, wa: CluiUiRect, b: CluiWindowKey, wb: CluiUiRect) -> bool {
    wa.z_index < wb.z_index || (wa.z_index == wb.z_index && a.sequence() < b.sequence())
}

pub open spec fn paints_before(v: LayerView, a: CluiWindowKey, b: CluiWindowKey) -> bool {
    precedes(a, v.windows[a], b, v.windows[b])
}

/// `s` lists each live window of `v` once, in the order they are painted.
pub open spec fn is_paint_order(v: LayerView, s: Seq<CluiWindowKey>) -> bool {
    &&& s.no_duplicates()
    &&& forall|i: int| 0 <= i < s.len() ==> v.windows.contains_key(#[trigger] s[i])
    &&& forall|h: CluiWindowKey| v.windows.contains_key(h) ==> s.contains(h)
    &&& forall|i: int, j: int| 0 <= i < j < s.len() ==> paints_before(v, #[trigger] s[i], #[trigger] s[j])
}

/// The corner of a quad that its `j`-th vertex stands at.
pub open spec fn quad_corner(j: int) -> Corner {
    if j == 0 {
        Corner::TopLeft
    } else if j == 1 {
        Corner::TopRight
    } else if j == 2 {
        Corner::BottomRight
    } else {
        Corner::BottomLeft
    }
}

/// The `j`-th vertex of the quad of window `w`.
pub open spec fn quad_vertex(w: CluiUiRect, j: int) -> CluiVertex {
    let c = w.rect.corner_of(quad_corner(j));
    CluiVertex { x: c.0 as i64, y: c.1 as i64, color: w.background_color }
}

/// The `j`-th index of a quad: two triangles over its four vertices.
pub open spec fn quad_index(j: int) -> u32 {
    if j == 0 || j == 3 {
        0
    } else if j == 1 {
        1
    } else if j == 2 || j == 4 {
        2
    } else {
        3
    }
}

/// The draw instruction of the `i`-th quad.
pub open spec fn quad_draw(i: int) -> DrawInstruction {
    DrawInstruction { index_offset: (6 * i) as u32, index_count: 6, vertex_offset: (4 * i) as u32 }
}

/// The buffers of `d` hold the quads of `ws`, in that order.
pub open spec fn draws_windows(d: CluiDrawSet, ws: Seq<CluiUiRect>) -> bool {
    &&& d.vertices@.len() == 4 * ws.len()
    &&& d.indices@.len() == 6 * ws.len()
    &&& d.draws@.len() == ws.len()
    &&& forall|p: int|
        0 <= p < d.vertices@.len() ==> #[trigger] d.vertices@[p] == quad_vertex(ws[p / 4], p % 4)
    &&& forall|p: int| 0 <= p < d.indices@.len() ==> #[trigger] d.indices@[p] == quad_index(p % 6)
    &&& forall|i: int| 0 <= i < d.draws@.len() ==> #[trigger] d.draws@[i] == quad_draw(i)
}

/// The whole viewport as a rectangle at the origin.
pub open spec fn full_viewport(viewport: Size) -> Rect {
    Rect { point: Point { x: Scalar { units: 0 }, y: Scalar { units: 0 } }, size: viewport }
}

/// `d` is the draw set of a layer in state `v`: the viewport's size and
/// scissor, and one quad for each window in paint order.
pub open spec fn compiled(v: LayerView, d: CluiDrawSet) -> bool {
    &&& d.viewport == v.viewport
    &&& d.scissor == full_viewport(v.viewport)
    &&& exists|s: Seq<CluiWindowKey>|
        is_paint_order(v, s) && draws_windows(d, s.map_values(|h: CluiWindowKey| v.windows[h]))
}

/// A layer has one paint order: two lists that each name every live window
/// once, ordered by depth and then by when each was added, are the same
/// list.
pub proof fn lemma_paint_order_unique(v: LayerView, s1: Seq<CluiWindowKey>, s2: Seq<CluiWindowKey>)
    requires
        is_paint_order(v, s1),
        is_paint_order(v, s2),
    ensures
        s1 == s2,
    decreases s1.len(),
{
    if s1.len() == 0 {
        if s2.len() > 0 {
            assert(s1.contains(s2[0]));
        }
        assert(s1 =~= s2);
    } else if s2.len() == 0 {
        assert(s2.contains(s1[0]));
    } else {
        if s1[0] != s2[0] {
            assert(s2.contains(s1[0]));
            assert(s1.contains(s2[0]));
            let i = choose|i: int| 0 <= i < s2.len() && s2[i] == s1[0];
            let j = choose|j: int| 0 <= j < s1.len() && s1[j] == s2[0];
            assert(paints_before(v, s2[0], s2[i]));
            assert(paints_before(v, s1[0], s1[j]));
        }
        let h = s1[0];
        let w = LayerView { windows: v.windows.remove(h), ..v };
        let t1 = s1.drop_first();
        let t2 = s2.drop_first();
        assert forall|i: int, j: int| 0 <= i < j < t1.len() implies paints_before(w, #[trigger] t1[i], #[trigger] t1[j]) by {
            assert(t1[i] == s1[i + 1] && t1[j] == s1[j + 1]);
            assert(paints_before(v, s1[i + 1], s1[j + 1]));
        }
        assert forall|i: int, j: int| 0 <= i < j < t2.len() implies paints_before(w, #[trigger] t2[i], #[trigger] t2[j]) by {
            assert(t2[i] == s2[i + 1] && t2[j] == s2[j + 1]);
            assert(paints_before(v, s2[i + 1], s2[j + 1]));
        }
        assert forall|x: CluiWindowKey| w.windows.contains_key(x) implies t1.contains(x) by {
            assert(s1.contains(x));
            let k = choose|k: int| 0 <= k < s1.len() && s1[k] == x;
            assert(t1[k - 1] == x);
        }
        assert forall|x: CluiWindowKey| w.windows.contains_key(x) implies t2.contains(x) by {
            assert(s2.contains(x));
            let k = choose|k: int| 0 <= k < s2.len() && s2[k] == x;
            assert(t2[k - 1] == x);
        }
        assert forall|i: int| 0 <= i < t1.len() implies w.windows.contains_key(#[trigger] t1[i]) by {
            assert(t1[i] == s1[i + 1]);
            assert(s1[0] != s1[i + 1]);
        }
        assert forall|i: int| 0 <= i < t2.len() implies w.windows.contains_key(#[trigger] t2[i]) by {
            assert(t2[i] == s2[i + 1]);
            assert(s2[0] != s2[i + 1]);
        }
        lemma_paint_order_unique(w, t1, t2);
        assert(s1 =~= seq![h] + t1);
        assert(s2 =~= seq![h] + t2);
    }
}

/// Compiling a layer is deterministic: any two draw sets made from the same
/// layer state hold the same draw instructions, vertices and indices.
pub proof fn lemma_compile_deterministic(v: LayerView, d1: CluiDrawSet, d2: CluiDrawSet)
    requires
        compiled(v, d1),
        compiled(v, d2),
    ensures
        d1.viewport == d2.viewport,
        d1.scissor == d2.scissor,
        d1.draws@ == d2.draws@,
        d1.vertices@ == d2.vertices@,
        d1.indices@ == d2.indices@,
{
    let s1 = choose|s: Seq<CluiWindowKey>|
        is_paint_order(v, s) && draws_windows(d1, s.map_values(|h: CluiWindowKey| v.windows[h]));
    let s2 = choose|s: Seq<CluiWindowKey>|
        is_paint_order(v, s) && draws_windows(d2, s.map_values(|h: CluiWindowKey| v.windows[h]));
    lemma_paint_order_unique(v, s1, s2);
    assert(d1.draws@ =~= d2.draws@);
    assert(d1.vertices@ =~= d2.vertices@);
    assert(d1.indices@ =~= d2.indices@);
}

/// Of two windows at the same depth, the one that was live when the other
/// was added is painted first: `b` was added to a layer in state `pre` that
/// already held `a`, and `v` is any later state that holds both.
pub proof fn lemma_equal_depth_keeps_insertion_order(
    pre: LayerView,
    post: LayerView,
    wb: CluiUiRect,
    b: CluiWindowKey,
    a: CluiWindowKey,
    v: LayerView,
    s: Seq<CluiWindowKey>,
)
    requires
        pre.wf(),
        pre.windows.contains_key(a),
        window_added(pre, post, wb, b),
        v.windows.contains_key(a),
        v.windows.contains_key(b),
        v.windows[a].z_index == v.windows[b].z_index,
        is_paint_order(v, s),
    ensures
        exists|i: int, j: int| 0 <= i < j < s.len() && s[i] == a && s[j] == b,
{
    assert(s.contains(a) && s.contains(b));
    let i = choose|i: int| 0 <= i < s.len() && s[i] == a;
    let j = choose|j: int| 0 <= j < s.len() && s[j] == b;
    assert(a != b);
    if j < i {
        assert(paints_before(v, s[j], s[i]));
    }
    assert(0 <= i < j < s.len() && s[i] == a && s[j] == b);
}

fn precedes_exec(a: &(CluiWindowKey, CluiUiRect), b: &(CluiWindowKey, CluiUiRect)) -> (r: bool)
    ensures
        r == precedes(a.0, a.1, b.0, b.1),
{
    a.1.z_index < b.1.z_index || (a.1.z_index == b.1.z_index && a.0.sequence_number()
        < b.0.sequence_number())
}

/// The position of corner `c` of `r`, in units.
fn corner_units(r: &Rect, c: Corner) -> (p: (i64, i64))
    ensures
        p.0 == r.corner_of(c).0,
        p.1 == r.corner_of(c).1,
{
    let left = r.point.x.units as i64;
    let top = r.point.y.units as i64;
    let right = left + r.size.width.units as i64;
    let bottom = top + r.size.height.units as i64;
    match c {
        Corner::TopLeft => (left, top),
        Corner::TopRight => (right, top),
        Corner::BottomLeft => (left, bottom),
        Corner::BottomRight => (right, bottom),
    }
}

fn quad_vertex_exec(w: &CluiUiRect, c: Corner) -> (v: CluiVertex)
    ensures
        v.x == w.rect.corner_of(c).0,
        v.y == w.rect.corner_of(c).1,
        v.color == w.background_color,
{
    let p = corner_units(&w.rect, c);
    CluiVertex { x: p.0, y: p.1, color: w.background_color }
}

/// Sorts `items`, whose handles are distinct live handles of `v`, into
/// paint order.
fn sort_for_painting(items: Vec<(CluiWindowKey, CluiUiRect)>, Ghost(v): Ghost<LayerView>) -> (r: Vec<(CluiWindowKey, CluiUiRect)>)
    requires
        v.wf(),
        forall|i: int|
            0 <= i < items@.len() ==> v.windows.contains_key(#[trigger] items@[i].0)
                && v.windows[items@[i].0] == items@[i].1,
        forall|i: int, j: int| 0 <= i < j < items@.len() ==> items@[i].0 != items@[j].0,
    ensures
        r@.len() == items@.len(),
        forall|x: (CluiWindowKey, CluiUiRect)| r@.contains(x) <==> items@.contains(x),
        forall|i: int|
            0 <= i < r@.len() ==> v.windows.contains_key(#[trigger] r@[i].0) && v.windows[r@[i].0]
                == r@[i].1,
        forall|i: int, j: int|
            0 <= i < j < r@.len() ==> precedes(
                (#[trigger] r@[i]).0,
                r@[i].1,
                (#[trigger] r@[j]).0,
                r@[j].1,
            ),
{
    let mut sorted: Vec<(CluiWindowKey, CluiUiRect)> = Vec::new();
    let mut i: usize = 0;
    while i < items.len()
        invariant
            i <= items@.len(),
            sorted@.len() == i,
            v.wf(),
            forall|k: int|
                0 <= k < items@.len() ==> v.windows.contains_key(#[trigger] items@[k].0)
                    && v.windows[items@[k].0] == items@[k].1,
            forall|k: int, l: int| 0 <= k < l < items@.len() ==> items@[k].0 != items@[l].0,
            forall|x: (CluiWindowKey, CluiUiRect)|
                sorted@.contains(x) <==> items@.subrange(0, i as int).contains(x),
            forall|k: int|
                0 <= k < sorted@.len() ==> v.windows.contains_key(#[trigger] sorted@[k].0)
                    && v.windows[sorted@[k].0] == sorted@[k].1,
            forall|k: int, l: int|
                0 <= k < l < sorted@.len() ==> precedes(
                    (#[trigger] sorted@[k]).0,
                    sorted@[k].1,
                    (#[trigger] sorted@[l]).0,
                    sorted@[l].1,
                ),
        decreases items@.len() - i,
    {
        let e = items[i];
        proof {
            assert forall|k: int| 0 <= k < sorted@.len() implies (#[trigger] sorted@[k]).0 != e.0 by {
                assert(sorted@.contains(sorted@[k]));
                assert(items@.subrange(0, i as int).contains(sorted@[k]));
                let m = choose|m: int|
                    0 <= m < i && items@.subrange(0, i as int)[m] == sorted@[k];
                assert(items@[m] == sorted@[k]);
            }
        }
        let mut p: usize = 0;
        while p < sorted.len() && !precedes_exec(&e, &sorted[p])
            invariant
                p <= sorted@.len(),
                v.wf(),
                v.windows.contains_key(e.0) && v.windows[e.0] == e.1,
                forall|k: int|
                    0 <= k < sorted@.len() ==> v.windows.contains_key(#[trigger] sorted@[k].0)
                        && v.windows[sorted@[k].0] == sorted@[k].1,
                forall|k: int| 0 <= k < sorted@.len() ==> (#[trigger] sorted@[k]).0 != e.0,
                forall|k: int|
                    0 <= k < p ==> precedes(
                        (#[trigger] sorted@[k]).0,
                        sorted@[k].1,
                        e.0,
                        e.1,
                    ),
            decreases sorted@.len() - p,
        {
            proof {
                let x = sorted@[p as int];
                assert(x.0 != e.0);
                assert(x.0.sequence() != e.0.sequence());
            }
            p = p + 1;
        }
        let ghost old_sorted = sorted@;
        sorted.insert(p, e);
        proof {
            assert(sorted@ == old_sorted.insert(p as int, e));
            assert forall|k: int, l: int|
                0 <= k < l < sorted@.len() implies precedes(
                (#[trigger] sorted@[k]).0,
                sorted@[k].1,
                (#[trigger] sorted@[l]).0,
                sorted@[l].1,
            ) by {
                if k < p && l < p {
                    assert(sorted@[k] == old_sorted[k] && sorted@[l] == old_sorted[l]);
                } else if k < p && l == p {
                } else if k < p {
                    assert(sorted@[k] == old_sorted[k] && sorted@[l] == old_sorted[l - 1]);
                    assert(precedes(old_sorted[k].0, old_sorted[k].1, e.0, e.1));
                    if p < l - 1 {
                        assert(precedes(old_sorted[p as int].0, old_sorted[p as int].1, old_sorted[l - 1].0, old_sorted[l - 1].1));
                    }
                } else if k == p {
                    assert(sorted@[l] == old_sorted[l - 1]);
                    assert(precedes(e.0, e.1, old_sorted[p as int].0, old_sorted[p as int].1));
                    if p < l - 1 {
                        assert(precedes(old_sorted[p as int].0, old_sorted[p as int].1, old_sorted[l - 1].0, old_sorted[l - 1].1));
                    }
                } else {
                    assert(sorted@[k] == old_sorted[k - 1] && sorted@[l] == old_sorted[l - 1]);
                }
            }
            assert forall|x: (CluiWindowKey, CluiUiRect)|
                sorted@.contains(x) <==> items@.subrange(0, i + 1).contains(x) by {
                assert(items@.subrange(0, i + 1) =~= items@.subrange(0, i as int).push(e));
                let prefix = items@.subrange(0, i as int);
                if sorted@.contains(x) {
                    let k = choose|k: int| 0 <= k < sorted@.len() && sorted@[k] == x;
                    if k == p {
                        assert(items@.subrange(0, i + 1)[i as int] == x);
                    } else {
                        if k < p {
                            assert(old_sorted[k] == x);
                        } else {
                            assert(old_sorted[k - 1] == x);
                        }
                        assert(old_sorted.contains(x));
                        assert(prefix.contains(x));
                        let m = choose|m: int| 0 <= m < prefix.len() && prefix[m] == x;
                        assert(items@.subrange(0, i + 1)[m] == x);
                    }
                }
                if items@.subrange(0, i as int).contains(x) {
                    assert(old_sorted.contains(x));
                    let k = choose|k: int| 0 <= k < old_sorted.len() && old_sorted[k] == x;
                    if k < p {
                        assert(sorted@[k] == x);
                    } else {
                        assert(sorted@[k + 1] == x);
                    }
                }
                if x == e {
                    assert(sorted@[p as int] == e);
                }
            }
        }
        i = i + 1;
    }
    assert(items@.subrange(0, items@.len() as int) =~= items@);
    sorted
}

impl CluiLayer {
    /// Flattens the layer into one draw set: a quad of four vertices and six
    /// indices for each window, deepest first and, at equal depth, in the
    /// order the windows were added; one draw instruction for each quad. The
    /// draw set takes the layer's viewport, and its scissor is the whole
    /// viewport.
    pub fn compile_draw_set(&self) -> (d: CluiDrawSet)
        requires
            self.wf(),
        ensures
            compiled(self@, d),
    {
        proof {
            self.lemma_view_wf();
        }
        let ghost v = self@;
        let items = self.windows_by_handle();
        let sorted = sort_for_painting(items, Ghost(v));
        let n = sorted.len();
        let mut vertices: Vec<CluiVertex> = Vec::new();
        let mut indices: Vec<u32> = Vec::new();
        let mut draws: Vec<DrawInstruction> = Vec::new();
        let mut i: usize = 0;
        while i < n
            invariant
                n == sorted@.len(),
                n <= MAX_WINDOWS,
                i <= n,
                vertices@.len() == 4 * i,
                indices@.len() == 6 * i,
                draws@.len() == i,
                forall|p: int|
                    0 <= p < vertices@.len() ==> #[trigger] vertices@[p] == quad_vertex(
                        sorted@[p / 4].1,
                        p % 4,
                    ),
                forall|p: int| 0 <= p < indices@.len() ==> #[trigger] indices@[p] == quad_index(p % 6),
                forall|k: int| 0 <= k < draws@.len() ==> #[trigger] draws@[k] == quad_draw(k),
            decreases n - i,
        {
            let w = sorted[i].1;
            let ghost base = 4 * i as int;
            let ghost ibase = 6 * i as int;
            vertices.push(quad_vertex_exec(&w, Corner::TopLeft));
            vertices.push(quad_vertex_exec(&w, Corner::TopRight));
            vertices.push(quad_vertex_exec(&w, Corner::BottomRight));
            vertices.push(quad_vertex_exec(&w, Corner::BottomLeft));
            indices.push(0);
            indices.push(1);
            indices.push(2);
            indices.push(0);
            indices.push(2);
            indices.push(3);
            draws.push(
                DrawInstruction {
                    index_offset: (6 * i) as u32,
                    index_count: 6,
                    vertex_offset: (4 * i) as u32,
                },
            );
            proof {
                assert forall|p: int| 0 <= p < vertices@.len() implies #[trigger] vertices@[p]
                    == quad_vertex(sorted@[p / 4].1, p % 4) by {
                    if p >= base {
                        assert(p / 4 == i && p % 4 == p - base) by (nonlinear_arith)
                            requires
                                base == 4 * i,
                                base <= p < base + 4,
                        ;
                    }
                }
                assert forall|p: int| 0 <= p < indices@.len() implies #[trigger] indices@[p]
                    == quad_index(p % 6) by {
                    if p >= ibase {
                        assert(p % 6 == p - ibase) by (nonlinear_arith)
                            requires
                                ibase == 6 * i,
                                ibase <= p < ibase + 6,
                        ;
                    }
                }
            }
            i = i + 1;
        }
        let viewport = self.viewport();
        let d = CluiDrawSet {
            viewport,
            scissor: Rect { point: Point { x: Scalar::zero(), y: Scalar::zero() }, size: viewport },
            draws,
            vertices,
            indices,
        };
        proof {
            let s = sorted@.map_values(|x: (CluiWindowKey, CluiUiRect)| x.0);
            assert forall|h: CluiWindowKey| v.windows.contains_key(h) implies s.contains(h) by {
                let k = choose|k: int| 0 <= k < items@.len() && #[trigger] items@[k].0 == h;
                assert(items@.contains(items@[k]));
                assert(sorted@.contains(items@[k]));
                let m = choose|m: int| 0 <= m < sorted@.len() && sorted@[m] == items@[k];
                assert(s[m] == h);
            }
            assert forall|a: int, b: int| 0 <= a < b < s.len() implies paints_before(v, #[trigger] s[a], #[trigger] s[b]) by {
                assert(precedes(sorted@[a].0, sorted@[a].1, sorted@[b].0, sorted@[b].1));
            }
            assert forall|a: int, b: int| 0 <= a < s.len() && 0 <= b < s.len() && a != b implies s[a] != s[b] by {
                if a < b {
                    assert(precedes(sorted@[a].0, sorted@[a].1, sorted@[b].0, sorted@[b].1));
                } else {
                    assert(precedes(sorted@[b].0, sorted@[b].1, sorted@[a].0, sorted@[a].1));
                }
            }
            assert(is_paint_order(v, s));
            let ws = s.map_values(|h: CluiWindowKey| v.windows[h]);
            assert forall|p: int| 0 <= p < d.vertices@.len() implies #[trigger] d.vertices@[p]
                == quad_vertex(ws[p / 4], p % 4) by {
                assert(0 <= p / 4 < n) by (nonlinear_arith)
                    requires
                        0 <= p < 4 * n,
                ;
            }
            assert(draws_windows(d, ws));
        }
        d
    }
}

} // verus!
