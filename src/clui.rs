//! The toolkit root: the layers, in the order they were created.
use vstd::prelude::*;
use slotmap::DefaultKey;
use crate::draw::{compiled, CluiDrawList, CluiDrawSet};
use crate::layer::CluiLayer;
use crate::scalar::SUBPIXELS;
use crate::slots::{layer_slots, layer_slots_get, layer_slots_get_mut, layer_slots_insert, new_layer_slots, LayerSlots};

verus! {

/// The most layers a toolkit holds: the bound of the slot map that keeps
/// them.
pub const MAX_LAYERS: usize = 4_294_967_294;

/// A handle to a layer.
#[derive(Clone, Copy, PartialEq, Eq, Debug, Hash)]
pub struct CluiLayerKey {
    key: DefaultKey,
}

/// What a toolkit holds, as mathematics.
pub struct CluiView {
    /// The layers by handle.
    pub layers: Map<CluiLayerKey, CluiLayer>,
    /// The handles of all layers, in the order the layers were created.
    pub order: Seq<CluiLayerKey>,
}

/// The toolkit root, which owns every layer.
pub struct Clui {
    layers: LayerSlots,
    order: Vec<CluiLayerKey>,
}

spec fn layers_of(slots: Map<DefaultKey, CluiLayer>) -> Map<CluiLayerKey, CluiLayer> {
    Map::new(|h: CluiLayerKey| slots.contains_key(h.key), |h: CluiLayerKey| slots[h.key])
}

impl View for Clui {
    type V = CluiView;

    closed spec fn view(&self) -> CluiView {
        CluiView { layers: layers_of(layer_slots(self.layers)), order: self.order@ }
    }
}

impl Clui {
    /// The handles in `order` are those of the layers, each once, and every
    /// layer is consistent.
    pub closed spec fn wf(&self) -> bool {
        let s = layer_slots(self.layers);
        &&& s.dom().finite()
        &&& s.len() == self.order@.len()
        &&& self.order@.no_duplicates()
        &&& forall|i: int| 0 <= i < self.order@.len() ==> s.contains_key(#[trigger] self.order@[i].key)
        &&& forall|k: DefaultKey| #[trigger] s.contains_key(k) ==> s[k].wf()
    }

    pub fn new() -> (c: Clui)
        ensures
            c.wf(),
            c@.layers == Map::<CluiLayerKey, CluiLayer>::empty(),
            c@.order == Seq::<CluiLayerKey>::empty(),
    {
        let c = Clui { layers: new_layer_slots(), order: Vec::new() };
        assert(c@.layers =~= Map::<CluiLayerKey, CluiLayer>::empty());
        c
    }

    /// The number of layers.
    pub fn layer_count(&self) -> (r: usize)
        requires
            self.wf(),
        ensures
            r == self@.order.len(),
    {
        self.order.len()
    }

    /// Adds an empty layer with a viewport of 800 by 600 pixels on top of
    /// the others and returns its handle.
    pub fn create_layer(&mut self) -> (k: CluiLayerKey)
        requires
            old(self).wf(),
            old(self)@.order.len() < MAX_LAYERS,
        ensures
            final(self).wf(),
            !old(self)@.layers.contains_key(k),
            final(self)@.layers.dom() == old(self)@.layers.dom().insert(k),
            forall|h: CluiLayerKey|
                h != k && old(self)@.layers.contains_key(h) ==> #[trigger] final(self)@.layers[h]
                    == old(self)@.layers[h],
            final(self)@.order == old(self)@.order.push(k),
            final(self)@.layers[k].wf(),
            final(self)@.layers[k]@.windows == Map::<crate::layer::CluiWindowKey, crate::layer::CluiUiRect>::empty(),
            final(self)@.layers[k]@.next_stamp == 0,
            final(self)@.layers[k].window_count_of() == 0,
            final(self)@.layers[k]@.viewport.width.units == 800 * SUBPIXELS,
            final(self)@.layers[k]@.viewport.height.units == 600 * SUBPIXELS,
    {
        let layer = CluiLayer::new();
        let ghost pre = layer_slots(self.layers);
        let key = layer_slots_insert(&mut self.layers, layer);
        let k = CluiLayerKey { key };
        proof {
            assert(!self.order@.contains(k)) by {
                if self.order@.contains(k) {
                    let i = choose|i: int| 0 <= i < self.order@.len() && self.order@[i] == k;
                    assert(pre.contains_key(self.order@[i].key));
                }
            }
        }
        self.order.push(k);
        proof {
            let post = layer_slots(self.layers);
            assert(post.dom() =~= pre.dom().insert(key));
            assert(final(self)@.layers.dom() =~= old(self)@.layers.dom().insert(k));
            assert forall|i: int| 0 <= i < self.order@.len() implies post.contains_key(#[trigger] self.order@[i].key) by {
                if i < self.order@.len() - 1 {
                    assert(self.order@[i] == old(self)@.order[i]);
                }
            }
        }
        k
    }

    /// A mutable borrow of the layer of `key`, or `None` when `key` does not
    /// name a layer; what is written through it becomes that layer.
    pub fn get_layer_by_key(&mut self, key: CluiLayerKey) -> (r: Option<&mut CluiLayer>)
        requires
            old(self).wf(),
        ensures
            final(self)@.order == old(self)@.order,
            match r {
                Some(l) => {
                    &&& old(self)@.layers.contains_key(key)
                    &&& *l == old(self)@.layers[key]
                    &&& l.wf()
                    &&& final(self)@.layers == old(self)@.layers.insert(key, *final(l))
                    &&& (final(l).wf() ==> final(self).wf())
                },
                None => {
                    &&& !old(self)@.layers.contains_key(key)
                    &&& final(self)@ == old(self)@
                    &&& final(self).wf()
                },
            },
    {
        let ghost pre = layer_slots(self.layers);
        let r = layer_slots_get_mut(&mut self.layers, key.key);
        proof {
            if r is Some {
                let l = r->0;
                let post = layer_slots(after_borrow(self.layers));
                assert(post.dom() =~= pre.dom());
                assert(layers_of(post) =~= old(self)@.layers.insert(key, *final(l)));
            } else {
                assert(layers_of(layer_slots(after_borrow(self.layers))) =~= old(self)@.layers);
            }
        }
        r
    }

    /// The draw sets of all layers, in the order the layers were created.
    pub fn get_render_data(&self) -> (r: CluiDrawList)
        requires
            self.wf(),
        ensures
            r.draw_sets@.len() == self@.order.len(),
            forall|i: int|
                0 <= i < self@.order.len() ==> compiled(
                    self@.layers[self@.order[i]]@,
                    #[trigger] r.draw_sets@[i],
                ),
    {
        let mut sets: Vec<CluiDrawSet> = Vec::new();
        let mut i: usize = 0;
        while i < self.order.len()
            invariant
                self.wf(),
                i <= self@.order.len(),
                sets@.len() == i,
                forall|k: int|
                    0 <= k < i ==> compiled(self@.layers[self@.order[k]]@, #[trigger] sets@[k]),
            decreases self@.order.len() - i,
        {
            let k = self.order[i];
            match layer_slots_get(&self.layers, k.key) {
                Some(layer) => {
                    sets.push(layer.compile_draw_set());
                },
                None => {
                    proof {
                        assert(layer_slots(self.layers).contains_key(self.order@[i as int].key));
                    }
                },
            }
            i = i + 1;
        }
        CluiDrawList { draw_sets: sets }
    }
}

} // verus!
