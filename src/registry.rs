//! The registry from tracked windows to their borders.
//!
//! It holds at most one border per tracked window: `register` checks and
//! inserts in one step and refuses an occupied key. Callers that share it
//! between threads hold it under one lock per operation.
use vstd::prelude::*;
use rustc_hash::FxBuildHasher;
use rustc_hash::FxHashMap;

verus! {

#[verifier::external_type_specification]
#[verifier::external_body]
pub struct ExFxBuildHasher(FxBuildHasher);

/// The identity of a tracked window: the integer value of its handle.
#[derive(Clone, Copy, Debug, PartialEq, Eq, Hash, Structural)]
pub struct TrackedWindowId(pub isize);

/// The identity of a border's own native window.
#[derive(Clone, Copy, Debug, PartialEq, Eq, Hash, Structural)]
pub struct BorderId(pub isize);

#[derive(Clone, Copy, Debug, PartialEq, Eq, Structural)]
pub enum RegistryError {
    AlreadyExists,
}

/// The contents of an empty registry.
pub open spec fn no_borders() -> Map<isize, isize> {
    Map::empty()
}

/// Relies on `HashMap::default` with rustc-hash's `FxBuildHasher`: the new
/// map is empty.
#[verifier::external_body]
fn fx_new() -> (r: FxHashMap<isize, isize>)
    ensures
        r@ == no_borders(),
{
    FxHashMap::default()
}

/// Relies on `HashMap::get`: the value stored under `k`, if any.
#[verifier::external_body]
fn fx_get(m: &FxHashMap<isize, isize>, k: isize) -> (r: Option<isize>)
    ensures
        m@.contains_key(k) ==> r == Some(m@[k]),
        !m@.contains_key(k) ==> r is None,
{
    m.get(&k).copied()
}

/// Relies on `HashMap::insert`: `k` maps to `v` afterwards, every other key
/// as before.
#[verifier::external_body]
fn fx_insert(m: &mut FxHashMap<isize, isize>, k: isize, v: isize)
    ensures
        final(m)@ == old(m)@.insert(k, v),
{
    m.insert(k, v);
}

/// Relies on `HashMap::remove`: `k` is gone afterwards and its value, if it
/// had one, is returned.
#[verifier::external_body]
fn fx_remove(m: &mut FxHashMap<isize, isize>, k: isize) -> (r: Option<isize>)
    ensures
        final(m)@ == old(m)@.remove(k),
        old(m)@.contains_key(k) ==> r == Some(old(m)@[k]),
        !old(m)@.contains_key(k) ==> r is None,
{
    m.remove(&k)
}

/// Relies on `HashMap::clear`: the map is empty afterwards.
#[verifier::external_body]
fn fx_clear(m: &mut FxHashMap<isize, isize>)
    ensures
        final(m)@ == no_borders(),
{
    m.clear();
}

/// Relies on `HashMap::iter`: every entry once, in an unspecified order.
#[verifier::external_body]
fn fx_entries(m: &FxHashMap<isize, isize>) -> (r: Vec<(isize, isize)>)
    ensures
        forall|i: int| 0 <= i < r@.len() ==> #[trigger] m@.contains_key(r@[i].0) && m@[r@[i].0] == r@[i].1,
        forall|k: isize| #[trigger] m@.contains_key(k) ==> exists|i: int| 0 <= i < r@.len() && r@[i].0 == k,
        forall|i: int, j: int| 0 <= i < j < r@.len() ==> #[trigger] r@[i].0 != #[trigger] r@[j].0,
{
    m.iter().map(|(k, v)| (*k, *v)).collect()
}

/// What `register` returns and leaves: an occupied window is refused and
/// the registry is unchanged; a free one gets the border.
pub open spec fn register_result(m: Map<isize, isize>, window: TrackedWindowId, border: BorderId) -> (
    Result<(), RegistryError>,
    Map<isize, isize>,
) {
    if m.contains_key(window.0) {
        (Err(RegistryError::AlreadyExists), m)
    } else {
        (Ok(()), m.insert(window.0, border.0))
    }
}

pub struct BorderRegistry {
    borders: FxHashMap<isize, isize>,
}

impl View for BorderRegistry {
    type V = Map<isize, isize>;

    closed spec fn view(&self) -> Map<isize, isize> {
        self.borders@
    }
}

impl BorderRegistry {
    pub fn new() -> (r: BorderRegistry)
        ensures
            r@ == no_borders(),
    {
        BorderRegistry { borders: fx_new() }
    }

    /// Records `border` for `window` unless `window` already has a border, in
    /// which case the registry is left as it was.
    pub fn register(&mut self, window: TrackedWindowId, border: BorderId) -> (r: Result<(), RegistryError>)
        ensures
            (r, final(self)@) == register_result(old(self)@, window, border),
    {
        if fx_get(&self.borders, window.0).is_some() {
            return Err(RegistryError::AlreadyExists);
        }
        fx_insert(&mut self.borders, window.0, border.0);
        Ok(())
    }

    /// The border of `window`, if it has one.
    pub fn lookup(&self, window: TrackedWindowId) -> (r: Option<BorderId>)
        ensures
            self@.contains_key(window.0) ==> r == Some(BorderId(self@[window.0])),
            !self@.contains_key(window.0) ==> r is None,
    {
        match fx_get(&self.borders, window.0) {
            Some(b) => Some(BorderId(b)),
            None => None,
        }
    }

    /// Forgets the border of `window` and returns it, if it had one.
    pub fn unregister(&mut self, window: TrackedWindowId) -> (r: Option<BorderId>)
        ensures
            final(self)@ == old(self)@.remove(window.0),
            old(self)@.contains_key(window.0) ==> r == Some(BorderId(old(self)@[window.0])),
            !old(self)@.contains_key(window.0) ==> r is None,
    {
        match fx_remove(&mut self.borders, window.0) {
            Some(b) => Some(BorderId(b)),
            None => None,
        }
    }

    /// Every registered pair once, in an unspecified order.
    pub fn entries(&self) -> (r: Vec<(TrackedWindowId, BorderId)>)
        ensures
            forall|i: int| 0 <= i < r@.len() ==> #[trigger] self@.contains_key(r@[i].0.0) && self@[r@[i].0.0] == r@[i].1.0,
            forall|k: isize| #[trigger] self@.contains_key(k) ==> exists|i: int| 0 <= i < r@.len() && r@[i].0.0 == k,
            forall|i: int, j: int| 0 <= i < j < r@.len() ==> #[trigger] r@[i].0 != #[trigger] r@[j].0,
    {
        let raw = fx_entries(&self.borders);
        let mut out: Vec<(TrackedWindowId, BorderId)> = Vec::with_capacity(raw.len());
        let mut i: usize = 0;
        while i < raw.len()
            invariant
                i <= raw@.len(),
                out@.len() == i,
                forall|j: int| 0 <= j < i ==> #[trigger] out@[j] == (TrackedWindowId(raw@[j].0), BorderId(raw@[j].1)),
            decreases raw@.len() - i,
        {
            out.push((TrackedWindowId(raw[i].0), BorderId(raw[i].1)));
            i = i + 1;
        }
        proof {
            assert forall|k: isize| #[trigger] self@.contains_key(k) implies exists|i: int| 0 <= i < out@.len() && out@[i].0.0 == k by {
                let i = choose|i: int| 0 <= i < raw@.len() && raw@[i].0 == k;
                assert(out@[i].0.0 == k);
            }
            assert forall|i: int, j: int| 0 <= i < j < out@.len() implies #[trigger] out@[i].0 != #[trigger] out@[j].0 by {
                assert(raw@[i].0 != raw@[j].0);
            }
        }
        out
    }

    /// Empties the registry for a reload and returns every border that was in
    /// it, each to be torn down.
    pub fn take_all(&mut self) -> (r: Vec<BorderId>)
        ensures
            final(self)@ == no_borders(),
            forall|i: int| 0 <= i < r@.len() ==> old(self)@.contains_value(#[trigger] r@[i].0),
            forall|k: isize| #[trigger] old(self)@.contains_key(k) ==> exists|i: int| 0 <= i < r@.len() && #[trigger] r@[i].0 == old(self)@[k],
    {
        let all = self.entries();
        let mut out: Vec<BorderId> = Vec::with_capacity(all.len());
        let mut i: usize = 0;
        while i < all.len()
            invariant
                i <= all@.len(),
                out@.len() == i,
                forall|j: int| 0 <= j < i ==> #[trigger] out@[j] == all@[j].1,
            decreases all@.len() - i,
        {
            out.push(all[i].1);
            i = i + 1;
        }
        proof {
            assert forall|i: int| 0 <= i < out@.len() implies old(self)@.contains_value(#[trigger] out@[i].0) by {
                assert(old(self)@.contains_key(all@[i].0.0));
            }
            assert forall|k: isize| #[trigger] old(self)@.contains_key(k) implies exists|i: int| 0 <= i < out@.len() && #[trigger] out@[i].0 == old(self)@[k] by {
                let i = choose|i: int| 0 <= i < all@.len() && all@[i].0.0 == k;
                assert(out@[i] == all@[i].1);
            }
        }
        fx_clear(&mut self.borders);
        out
    }
}

/// Registering twice for one window never leaves two borders for it: the
/// second call, with any border, returns `AlreadyExists` and changes nothing,
/// so the window keeps the border it had after the first.
pub proof fn lemma_register_keeps_one_border(
    before: Map<isize, isize>,
    window: TrackedWindowId,
    first: BorderId,
    second: BorderId,
)
    ensures
        ({
            let (_, between) = register_result(before, window, first);
            let (r2, after) = register_result(between, window, second);
            &&& r2 == Err::<(), RegistryError>(RegistryError::AlreadyExists)
            &&& after == between
            &&& after.contains_key(window.0)
            &&& after[window.0] == if before.contains_key(window.0) { before[window.0] } else { first.0 }
        }),
{
}

} // verus!
