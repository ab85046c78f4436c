//! The slot maps of the `slotmap` crate that hold windows and layers, seen
//! through the contents they hold.
use vstd::prelude::*;
use slotmap::{DefaultKey, HopSlotMap, SlotMap};
use crate::layer::{CluiLayer, WindowSlot};

verus! {

#[verifier::external_type_specification]
#[verifier::external_body]
pub struct ExDefaultKey(DefaultKey);

/// The slot map that holds a layer's windows. Verus cannot declare
/// `HopSlotMap` itself (its key bound is a trait of `slotmap`), so the map
/// stands in a field that Verus does not read, and is seen only through
/// `window_slots`.
#[verifier::external_body]
pub struct WindowSlots {
    map: HopSlotMap<DefaultKey, WindowSlot>,
}

/// The slot map that holds the layers, seen only through `layer_slots`.
#[verifier::external_body]
pub struct LayerSlots {
    map: SlotMap<DefaultKey, CluiLayer>,
}

/// The live entries of a window slot map, by key.
pub uninterp spec fn window_slots(m: WindowSlots) -> Map<DefaultKey, WindowSlot>;

/// The live entries of a layer slot map, by key.
pub uninterp spec fn layer_slots(m: LayerSlots) -> Map<DefaultKey, CluiLayer>;

/// Relies on `HopSlotMap::with_key`: a new map holds nothing.
#[verifier::external_body]
pub(crate) fn new_window_slots() -> (r: WindowSlots)
    ensures
        window_slots(r).dom() == Set::<DefaultKey>::empty(),
{
    WindowSlots { map: HopSlotMap::with_key() }
}

/// Relies on `HopSlotMap::len`: the number of live entries.
#[verifier::external_body]
pub(crate) fn window_slots_len(m: &WindowSlots) -> (r: usize)
    requires
        window_slots(*m).dom().finite(),
    ensures
        r == window_slots(*m).len(),
{
    m.map.len()
}

/// Relies on `HopSlotMap::insert`: the value is stored under a key that was
/// not live before. It panics only when the map would reach `u32::MAX`
/// entries, which `requires` leaves out.
#[verifier::external_body]
pub(crate) fn window_slots_insert(m: &mut WindowSlots, v: WindowSlot) -> (k: DefaultKey)
    requires
        window_slots(*old(m)).dom().finite(),
        window_slots(*old(m)).len() + 1 < u32::MAX,
    ensures
        !window_slots(*old(m)).contains_key(k),
        window_slots(*final(m)) == window_slots(*old(m)).insert(k, v),
{
    m.map.insert(v)
}

/// Relies on `HopSlotMap::remove`: a live key's value is taken out and
/// returned; any other key changes nothing.
#[verifier::external_body]
pub(crate) fn window_slots_remove(m: &mut WindowSlots, k: DefaultKey) -> (r: Option<WindowSlot>)
    ensures
        match r {
            Some(v) => window_slots(*old(m)).contains_key(k) && v == window_slots(*old(m))[k]
                && window_slots(*final(m)) == window_slots(*old(m)).remove(k),
            None => !window_slots(*old(m)).contains_key(k) && window_slots(*final(m))
                == window_slots(*old(m)),
        },
{
    m.map.remove(k)
}

/// Relies on `HopSlotMap::get`: the value of a live key, else nothing.
#[verifier::external_body]
pub(crate) fn window_slots_get(m: &WindowSlots, k: DefaultKey) -> (r: Option<&WindowSlot>)
    ensures
        match r {
            Some(v) => window_slots(*m).contains_key(k) && *v == window_slots(*m)[k],
            None => !window_slots(*m).contains_key(k),
        },
{
    m.map.get(k)
}

/// Relies on `HopSlotMap::get_mut`: a mutable borrow of a live key's value;
/// what is written through it becomes that key's value.
#[verifier::external_body]
pub(crate) fn window_slots_get_mut(m: &mut WindowSlots, k: DefaultKey) -> (r: Option<&mut WindowSlot>)
    ensures
        match r {
            Some(v) => window_slots(*old(m)).contains_key(k) && *v == window_slots(*old(m))[k]
                && window_slots(*final(m)) == window_slots(*old(m)).insert(k, *final(v)),
            None => !window_slots(*old(m)).contains_key(k) && window_slots(*final(m))
                == window_slots(*old(m)),
        },
{
    m.map.get_mut(k)
}

/// Relies on `HopSlotMap::iter`: every live entry once, in an order the
/// crate leaves unspecified.
#[verifier::external_body]
pub(crate) fn window_slots_entries(m: &WindowSlots) -> (r: Vec<(DefaultKey, WindowSlot)>)
    ensures
        forall|i: int|
            0 <= i < r@.len() ==> window_slots(*m).contains_key(#[trigger] r@[i].0)
                && window_slots(*m)[r@[i].0] == r@[i].1,
        forall|k: DefaultKey|
            window_slots(*m).contains_key(k) ==> exists|i: int| 0 <= i < r@.len() && #[trigger] r@[i].0 == k,
        forall|i: int, j: int| 0 <= i < j < r@.len() ==> r@[i].0 != r@[j].0,
        window_slots(*m).dom().finite() ==> r@.len() == window_slots(*m).len(),
{
    m.map.iter().map(|(k, v)| (k, *v)).collect()
}

/// Relies on `SlotMap::with_key`: a new map holds nothing.
#[verifier::external_body]
pub(crate) fn new_layer_slots() -> (r: LayerSlots)
    ensures
        layer_slots(r).dom() == Set::<DefaultKey>::empty(),
{
    LayerSlots { map: SlotMap::with_key() }
}

/// Relies on `SlotMap::insert`: the value is stored under a key that was not
/// live before. It panics only when no slot is free and the map already has
/// `u32::MAX` slots, which the bound in `requires` leaves out.
#[verifier::external_body]
pub(crate) fn layer_slots_insert(m: &mut LayerSlots, v: CluiLayer) -> (k: DefaultKey)
    requires
        layer_slots(*old(m)).dom().finite(),
        layer_slots(*old(m)).len() + 1 < u32::MAX,
    ensures
        !layer_slots(*old(m)).contains_key(k),
        layer_slots(*final(m)) == layer_slots(*old(m)).insert(k, v),
{
    m.map.insert(v)
}

/// Relies on `SlotMap::get`: the value of a live key, else nothing.
#[verifier::external_body]
pub(crate) fn layer_slots_get(m: &LayerSlots, k: DefaultKey) -> (r: Option<&CluiLayer>)
    ensures
        match r {
            Some(v) => layer_slots(*m).contains_key(k) && *v == layer_slots(*m)[k],
            None => !layer_slots(*m).contains_key(k),
        },
{
    m.map.get(k)
}

/// Relies on `SlotMap::get_mut`: a mutable borrow of a live key's value;
/// what is written through it becomes that key's value.
#[verifier::external_body]
pub(crate) fn layer_slots_get_mut(m: &mut LayerSlots, k: DefaultKey) -> (r: Option<&mut CluiLayer>)
    ensures
        match r {
            Some(v) => layer_slots(*old(m)).contains_key(k) && *v == layer_slots(*old(m))[k]
                && layer_slots(*final(m)) == layer_slots(*old(m)).insert(k, *final(v)),
            None => !layer_slots(*old(m)).contains_key(k) && layer_slots(*final(m))
                == layer_slots(*old(m)),
        },
{
    m.map.get_mut(k)
}

} // verus!
