//! Layers: windows kept behind stamped handles, plus a viewport.
use vstd::prelude::*;
use slotmap::DefaultKey;
use crate::rect::Rect;
use crate::scalar::{Point, Scalar, SUBPIXELS};
use crate::size::Size;
use crate::slots::{
    new_window_slots, window_slots, window_slots_entries, window_slots_get, window_slots_get_mut, window_slots_insert,
    window_slots_len, window_slots_remove, WindowSlots,
};

verus! {

/// The most windows a layer holds: the indices of its draw set must be
/// addressable with `u32`, six for each window.
pub const MAX_WINDOWS: usize = 715_827_882;

/// A colour, one byte for each channel.
#[derive(Clone, Copy, PartialEq, Eq, Structural, Debug, Hash)]
pub struct CluiColor {
    pub r: u8,
    pub g: u8,
    pub b: u8,
    pub a: u8,
}

impl Default for CluiColor {
    fn default() -> (c: CluiColor)
        ensures
            c.r == 0 && c.g == 0 && c.b == 0 && c.a == 0,
    {
        CluiColor { r: 0, g: 0, b: 0, a: 0 }
    }
}

/// A window: a coloured rectangle painted at depth `z_index`.
#[derive(Clone, Copy, PartialEq, Eq, Structural, Debug, Hash)]
pub struct CluiUiRect {
    pub rect: Rect,
    pub background_color: CluiColor,
    pub z_index: i32,
}

impl Default for CluiUiRect {
    fn default() -> (w: CluiUiRect)
        ensures
            w.rect.point.x.units == 0 && w.rect.point.y.units == 0,
            w.rect.size.width.units == 0 && w.rect.size.height.units == 0,
            w.background_color == (CluiColor { r: 0, g: 0, b: 0, a: 0 }),
            w.z_index == 0,
    {
        CluiUiRect { rect: Rect::default(), background_color: CluiColor::default(), z_index: 0 }
    }
}

/// What a layer stores for each window: the window and the number of
/// windows that the layer had received before it.
#[derive(Clone, Copy, PartialEq, Eq, Structural, Debug)]
pub struct WindowSlot {
    pub window: CluiUiRect,
    pub stamp: u64,
}

/// A handle to a window of a layer. It names a slot and the stamp of the
/// window put there, so it stops resolving once that window is removed,
/// whatever comes into the slot later.
#[derive(Clone, Copy, PartialEq, Eq, Debug, Hash)]
pub struct CluiWindowKey {
    slot: DefaultKey,
    stamp: u64,
}

impl CluiWindowKey {
    /// How many windows the layer had received before this one.
    pub closed spec fn sequence(self) -> nat {
        self.stamp as nat
    }

    pub fn sequence_number(&self) -> (r: u64)
        ensures
            r == self.sequence(),
    {
        self.stamp
    }
}

/// What a layer holds, as mathematics.
pub struct LayerView {
    /// The live windows by handle.
    pub windows: Map<CluiWindowKey, CluiUiRect>,
    /// How many windows the layer has received so far.
    pub next_stamp: nat,
    pub viewport: Size,
}

impl LayerView {
    /// Every live handle was handed out earlier and no two share a sequence
    /// number.
    pub open spec fn wf(self) -> bool {
        &&& forall|h: CluiWindowKey| #[trigger]
            self.windows.contains_key(h) ==> h.sequence() < self.next_stamp
        &&& forall|h1: CluiWindowKey, h2: CluiWindowKey|
            #![trigger self.windows.contains_key(h1), self.windows.contains_key(h2)]
            self.windows.contains_key(h1) && self.windows.contains_key(h2) && h1 != h2
                ==> h1.sequence() != h2.sequence()
    }

    /// The result of a checked lookup of `h`.
    pub open spec fn lookup(self, h: CluiWindowKey) -> Option<CluiUiRect> {
        if self.windows.contains_key(h) {
            Some(self.windows[h])
        } else {
            None
        }
    }
}

/// `post` is `pre` after `w` was added under the new handle `h`.
pub open spec fn window_added(pre: LayerView, post: LayerView, w: CluiUiRect, h: CluiWindowKey) -> bool {
    &&& !pre.windows.contains_key(h)
    &&& h.sequence() == pre.next_stamp
    &&& post.windows == pre.windows.insert(h, w)
    &&& post.next_stamp == pre.next_stamp + 1
    &&& post.viewport == pre.viewport
}

/// `post` is `pre` after removing `h`, which gave `r`.
pub open spec fn window_removed(pre: LayerView, post: LayerView, h: CluiWindowKey, r: Option<CluiUiRect>) -> bool {
    &&& r == pre.lookup(h)
    &&& post.windows == pre.windows.remove(h)
    &&& post.next_stamp == pre.next_stamp
    &&& post.viewport == pre.viewport
}

/// The windows of a slot map, by the handles that resolve to them.
spec fn windows_of(slots: Map<DefaultKey, WindowSlot>) -> Map<CluiWindowKey, CluiUiRect> {
    Map::new(
        |h: CluiWindowKey| slots.contains_key(h.slot) && slots[h.slot].stamp == h.stamp,
        |h: CluiWindowKey| slots[h.slot].window,
    )
}

/// A set of windows sharing one viewport, painted in order of `z_index`.
pub struct CluiLayer {
    windows: WindowSlots,
    next_stamp: u64,
    viewport: Size,
}

impl View for CluiLayer {
    type V = LayerView;

    closed spec fn view(&self) -> LayerView {
        LayerView {
            windows: windows_of(window_slots(self.windows)),
            next_stamp: self.next_stamp as nat,
            viewport: self.viewport,
        }
    }
}

impl CluiLayer {
    /// The layer's own bookkeeping is consistent.
    pub closed spec fn wf(&self) -> bool {
        let s = window_slots(self.windows);
        &&& s.dom().finite()
        &&& s.len() <= MAX_WINDOWS
        &&& forall|k: DefaultKey| #[trigger] s.contains_key(k) ==> s[k].stamp < self.next_stamp
        &&& forall|k1: DefaultKey, k2: DefaultKey|
            #![trigger s.contains_key(k1), s.contains_key(k2)]
            s.contains_key(k1) && s.contains_key(k2) && k1 != k2 ==> s[k1].stamp != s[k2].stamp
    }

    /// The number of live windows.
    pub closed spec fn window_count_of(&self) -> nat {
        window_slots(self.windows).len()
    }

    /// Whether one more window can be added.
    pub open spec fn has_room(&self) -> bool {
        self.window_count_of() < MAX_WINDOWS && self@.next_stamp < u64::MAX
    }

    pub proof fn lemma_view_wf(&self)
        requires
            self.wf(),
        ensures
            self@.wf(),
            self.window_count_of() <= MAX_WINDOWS,
    {
        let s = window_slots(self.windows);
        assert forall|h1: CluiWindowKey, h2: CluiWindowKey|
            self@.windows.contains_key(h1) && self@.windows.contains_key(h2) && h1 != h2
                implies h1.sequence() != h2.sequence() by {
            if h1.slot == h2.slot {
                assert(h1.stamp == s[h1.slot].stamp);
            } else {
                assert(s.contains_key(h1.slot) && s.contains_key(h2.slot));
            }
        }
    }

    /// An empty layer with a viewport of 800 by 600 pixels.
    pub fn new() -> (l: CluiLayer)
        ensures
            l.wf(),
            l@.windows == Map::<CluiWindowKey, CluiUiRect>::empty(),
            l@.next_stamp == 0,
            l@.viewport.width.units == 800 * SUBPIXELS,
            l@.viewport.height.units == 600 * SUBPIXELS,
            l.window_count_of() == 0,
    {
        let l = CluiLayer {
            windows: new_window_slots(),
            next_stamp: 0,
            viewport: Size { width: Scalar::from_pixels(800), height: Scalar::from_pixels(600) },
        };
        assert(l@.windows =~= Map::<CluiWindowKey, CluiUiRect>::empty());
        l
    }

    /// Replaces the viewport; the windows stay as they are.
    pub fn update_viewport(&mut self, width: Scalar, height: Scalar)
        requires
            old(self).wf(),
        ensures
            final(self).wf(),
            final(self)@.viewport == (Size { width, height }),
            final(self)@.windows == old(self)@.windows,
            final(self)@.next_stamp == old(self)@.next_stamp,
            final(self).window_count_of() == old(self).window_count_of(),
    {
        self.viewport = Size { width, height };
    }

    /// The per-frame pass that resolves positions given relative to a parent
    /// or to the viewport. Every window of a layer holds its position as an
    /// absolute rectangle, so there is nothing to resolve and the layer is
    /// left as it is, which makes the pass idempotent.
    pub fn update(&mut self)
        requires
            old(self).wf(),
        ensures
            final(self).wf(),
            final(self)@ == old(self)@,
            final(self).window_count_of() == old(self).window_count_of(),
    {
    }

    pub fn viewport(&self) -> (r: Size)
        ensures
            r == self@.viewport,
    {
        self.viewport
    }

    pub fn window_count(&self) -> (r: usize)
        requires
            self.wf(),
        ensures
            r == self.window_count_of(),
    {
        window_slots_len(&self.windows)
    }

    /// Whether `add_window` may be called: the layer holds fewer than
    /// `MAX_WINDOWS` windows and its stamps are not used up.
    pub fn can_add_window(&self) -> (r: bool)
        requires
            self.wf(),
        ensures
            r == self.has_room(),
    {
        window_slots_len(&self.windows) < MAX_WINDOWS && self.next_stamp < u64::MAX
    }

    /// Adds `window` and returns its new handle.
    pub fn add_window(&mut self, window: CluiUiRect) -> (h: CluiWindowKey)
        requires
            old(self).wf(),
            old(self).has_room(),
        ensures
            final(self).wf(),
            window_added(old(self)@, final(self)@, window, h),
            final(self).window_count_of() == old(self).window_count_of() + 1,
    {
        let stamp = self.next_stamp;
        let ghost pre = window_slots(self.windows);
        let slot = window_slots_insert(&mut self.windows, WindowSlot { window, stamp });
        self.next_stamp = stamp + 1;
        let h = CluiWindowKey { slot, stamp };
        proof {
            let post = window_slots(self.windows);
            assert(post.dom() =~= pre.dom().insert(slot));
            assert(final(self)@.windows =~= old(self)@.windows.insert(h, window));
        }
        h
    }

    /// Adds a window at the origin, of zero size, transparent black, at
    /// depth zero.
    pub fn add_default_window(&mut self) -> (h: CluiWindowKey)
        requires
            old(self).wf(),
            old(self).has_room(),
        ensures
            final(self).wf(),
            window_added(
                old(self)@,
                final(self)@,
                CluiUiRect {
                    rect: Rect {
                        point: Point { x: Scalar { units: 0 }, y: Scalar { units: 0 } },
                        size: Size { width: Scalar { units: 0 }, height: Scalar { units: 0 } },
                    },
                    background_color: CluiColor { r: 0, g: 0, b: 0, a: 0 },
                    z_index: 0,
                },
                h,
            ),
            final(self).window_count_of() == old(self).window_count_of() + 1,
    {
        self.add_window(
            CluiUiRect {
                rect: Rect {
                    point: Point { x: Scalar::zero(), y: Scalar::zero() },
                    size: Size { width: Scalar::zero(), height: Scalar::zero() },
                },
                background_color: CluiColor::default(),
                z_index: 0,
            },
        )
    }

    /// Removes the window of `key` and returns it; `None` when `key` does not
    /// resolve.
    pub fn remove_window(&mut self, key: CluiWindowKey) -> (r: Option<CluiUiRect>)
        requires
            old(self).wf(),
        ensures
            final(self).wf(),
            window_removed(old(self)@, final(self)@, key, r),
            final(self).window_count_of() == old(self).window_count_of() - (if r is Some {
                1int
            } else {
                0int
            }),
    {
        let live = match window_slots_get(&self.windows, key.slot) {
            Some(s) => s.stamp == key.stamp,
            None => false,
        };
        if live {
            let ghost pre = window_slots(self.windows);
            let r = window_slots_remove(&mut self.windows, key.slot);
            proof {
                let post = window_slots(self.windows);
                assert(post.dom() =~= pre.dom().remove(key.slot));
                assert(final(self)@.windows =~= old(self)@.windows.remove(key));
            }
            match r {
                Some(s) => Some(s.window),
                None => None,
            }
        } else {
            assert(final(self)@.windows =~= old(self)@.windows.remove(key));
            None
        }
    }

    /// The window of `key`, or `None` when `key` does not resolve.
    pub fn get_window(&self, key: CluiWindowKey) -> (r: Option<&CluiUiRect>)
        ensures
            match r {
                Some(w) => self@.lookup(key) == Some(*w),
                None => self@.lookup(key) is None,
            },
    {
        match window_slots_get(&self.windows, key.slot) {
            Some(s) => {
                if s.stamp == key.stamp {
                    Some(&s.window)
                } else {
                    None
                }
            },
            None => None,
        }
    }

    /// A mutable borrow of the window of `key`, or `None` when `key` does not
    /// resolve; what is written through it becomes that window.
    pub fn get_window_mut(&mut self, key: CluiWindowKey) -> (r: Option<&mut CluiUiRect>)
        requires
            old(self).wf(),
        ensures
            match r {
                Some(w) => {
                    &&& old(self)@.lookup(key) == Some(*w)
                    &&& final(self)@ == (LayerView {
                        windows: old(self)@.windows.insert(key, *final(w)),
                        ..old(self)@
                    })
                },
                None => old(self)@.lookup(key) is None && final(self)@ == old(self)@,
            },
            final(self).wf(),
            final(self).window_count_of() == old(self).window_count_of(),
    {
        let ghost pre = window_slots(self.windows);
        match window_slots_get_mut(&mut self.windows, key.slot) {
            Some(s) => {
                if s.stamp == key.stamp {
                    let w = &mut s.window;
                    proof {
                        let post = window_slots(after_borrow(self.windows));
                        assert(post.dom() =~= pre.dom());
                        assert(windows_of(post) =~= old(self)@.windows.insert(key, *final(w)));
                    }
                    Some(w)
                } else {
                    assert(pre.insert(key.slot, *s) =~= pre);
                    None
                }
            },
            None => None,
        }
    }

    /// Every live window with its handle, each once, in no particular order.
    pub fn windows_by_handle(&self) -> (r: Vec<(CluiWindowKey, CluiUiRect)>)
        requires
            self.wf(),
        ensures
            forall|i: int|
                0 <= i < r@.len() ==> self@.windows.contains_key(#[trigger] r@[i].0)
                    && self@.windows[r@[i].0] == r@[i].1,
            forall|h: CluiWindowKey|
                self@.windows.contains_key(h) ==> exists|i: int|
                    0 <= i < r@.len() && #[trigger] r@[i].0 == h,
            forall|i: int, j: int| 0 <= i < j < r@.len() ==> r@[i].0 != r@[j].0,
            r@.len() == self.window_count_of(),
    {
        let entries = window_slots_entries(&self.windows);
        let ghost s = window_slots(self.windows);
        let mut r: Vec<(CluiWindowKey, CluiUiRect)> = Vec::new();
        let mut i: usize = 0;
        while i < entries.len()
            invariant
                i <= entries@.len(),
                r@.len() == i,
                s == window_slots(self.windows),
                forall|k: int|
                    0 <= k < entries@.len() ==> s.contains_key(#[trigger] entries@[k].0)
                        && s[entries@[k].0] == entries@[k].1,
                forall|k: int|
                    0 <= k < i ==> (#[trigger] r@[k]).0.slot == entries@[k].0 && r@[k].0.stamp
                        == entries@[k].1.stamp && r@[k].1 == entries@[k].1.window,
            decreases entries@.len() - i,
        {
            let (slot, entry) = entries[i];
            r.push((CluiWindowKey { slot, stamp: entry.stamp }, entry.window));
            i = i + 1;
        }
        assert forall|h: CluiWindowKey| self@.windows.contains_key(h) implies exists|i: int|
            0 <= i < r@.len() && #[trigger] r@[i].0 == h by {
            let k = choose|k: int| 0 <= k < entries@.len() && #[trigger] entries@[k].0 == h.slot;
            assert(r@[k].0 == h);
        }
        assert forall|i: int, j: int| 0 <= i < j < r@.len() implies r@[i].0 != r@[j].0 by {
            assert(entries@[i].0 != entries@[j].0);
        }
        r
    }

    /// The window of `key`, which must resolve.
    pub fn get_window_by_key(&self, key: CluiWindowKey) -> (r: &CluiUiRect)
        requires
            self@.windows.contains_key(key),
        ensures
            *r == self@.windows[key],
    {
        match self.get_window(key) {
            Some(w) => w,
            None => unreached(),
        }
    }

    /// A mutable borrow of the window of `key`, which must resolve; what is
    /// written through it becomes that window.
    pub fn get_mut_window_by_key(&mut self, key: CluiWindowKey) -> (r: &mut CluiUiRect)
        requires
            old(self).wf(),
            old(self)@.windows.contains_key(key),
        ensures
            *r == old(self)@.windows[key],
            final(self)@ == (LayerView {
                windows: old(self)@.windows.insert(key, *final(r)),
                ..old(self)@
            }),
            final(self).wf(),
            final(self).window_count_of() == old(self).window_count_of(),
    {
        match self.get_window_mut(key) {
            Some(w) => w,
            None => unreached(),
        }
    }
}

/// A window added and then removed at once: a lookup between the two finds
/// what was added, the removal hands back that same window, the handle then
/// resolves to nothing, and the other windows are as before.
pub proof fn lemma_add_then_remove(
    v0: LayerView,
    v1: LayerView,
    v2: LayerView,
    w: CluiUiRect,
    h: CluiWindowKey,
    removed: Option<CluiUiRect>,
)
    requires
        window_added(v0, v1, w, h),
        window_removed(v1, v2, h, removed),
    ensures
        v1.lookup(h) == Some(w),
        removed == Some(w),
        v2.lookup(h) is None,
        v2.windows == v0.windows,
{
    assert(v2.windows =~= v0.windows);
}

/// A handle, once its window is removed, resolves to nothing however many
/// windows are added afterwards, even where they reuse its slot: `states`
/// are the layer's views from just after the removal on, each next one made
/// from the one before by adding `added[i]` under the new handle `handles[i]`.
pub proof fn lemma_removed_handle_stays_missing(
    before: LayerView,
    h: CluiWindowKey,
    removed: Option<CluiUiRect>,
    states: Seq<LayerView>,
    added: Seq<CluiUiRect>,
    handles: Seq<CluiWindowKey>,
)
    requires
        before.wf(),
        before.windows.contains_key(h),
        states.len() == added.len() + 1,
        handles.len() == added.len(),
        window_removed(before, states[0], h, removed),
        forall|i: int|
            0 <= i < added.len() ==> window_added(
                #[trigger] states[i],
                states[i + 1],
                added[i],
                handles[i],
            ),
    ensures
        forall|i: int| 0 <= i < states.len() ==> (#[trigger] states[i]).lookup(h) is None,
{
    assert forall|i: int| 0 <= i < states.len() implies (#[trigger] states[i]).lookup(h) is None
        && h.sequence() < states[i].next_stamp by {
        lemma_stays_missing_upto(before, h, removed, states, added, handles, i);
    }
}

proof fn lemma_stays_missing_upto(
    before: LayerView,
    h: CluiWindowKey,
    removed: Option<CluiUiRect>,
    states: Seq<LayerView>,
    added: Seq<CluiUiRect>,
    handles: Seq<CluiWindowKey>,
    i: int,
)
    requires
        before.wf(),
        before.windows.contains_key(h),
        states.len() == added.len() + 1,
        handles.len() == added.len(),
        window_removed(before, states[0], h, removed),
        forall|j: int|
            0 <= j < added.len() ==> window_added(
                #[trigger] states[j],
                states[j + 1],
                added[j],
                handles[j],
            ),
        0 <= i < states.len(),
    ensures
        !states[i].windows.contains_key(h),
        h.sequence() < states[i].next_stamp,
    decreases i,
{
    if i > 0 {
        lemma_stays_missing_upto(before, h, removed, states, added, handles, i - 1);
        assert(window_added(states[i - 1], states[i], added[i - 1], handles[i - 1]));
    }
}

} // verus!
