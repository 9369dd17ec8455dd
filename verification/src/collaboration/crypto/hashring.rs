//! Consistent-hash ring assigning each URL to one device of a team.
//!
//! Each device sits on the ring at the hash of its id. A URL belongs to the
//! first device at or after the URL's hash, wrapping around to the device
//! with the smallest hash.

use crate::collaboration::types::Device;
use std::collections::{BTreeMap, HashMap};
use std::hash::{Hash, Hasher};
use vstd::prelude::*;

verus! {

broadcast use {vstd::std_specs::btree::group_btree_axioms, vstd::std_specs::hash::group_hash_axioms};

/// The ring position of a device: `std::hash::DefaultHasher::new()` fed with
/// the 16 bytes of its UUID, then `finish()`.
///
/// The value is fixed for one build only: the standard library does not
/// promise the same `DefaultHasher` algorithm across releases, and `Hash`
/// input may differ between platforms, so positions are not shared between
/// differently built programs (only the server places devices).
pub uninterp spec fn device_hash(id: u128) -> u64;

/// The ring position of a URL: `std::hash::DefaultHasher::new()` fed with
/// the URL text, then `finish()`.
///
/// Like `device_hash`, fixed for one build only.
pub uninterp spec fn url_hash(url: Seq<char>) -> u64;

/// Hashes a device id the way the ring places devices.
///
/// The contract names the hash: `DefaultHasher::new()` always starts from the
/// same state, so within one build equal ids hash equally.
#[verifier::external_body]
fn hash_device(id: u128) -> (r: u64)
    ensures
        r == device_hash(id),
{
    let mut h = std::hash::DefaultHasher::new();
    uuid::Uuid::from_u128(id).as_bytes().hash(&mut h);
    h.finish()
}

/// Hashes a URL the way the ring places URLs.
///
/// The contract names the hash: `DefaultHasher::new()` always starts from the
/// same state, so within one build equal texts hash equally.
#[verifier::external_body]
fn hash_url(url: &str) -> (r: u64)
    ensures
        r == url_hash(url@),
{
    let mut h = std::hash::DefaultHasher::new();
    url.hash(&mut h);
    h.finish()
}

/// `BTreeMap::range(from..).next()`: the entry with the least key not
/// below `from`, as the standard library documents for ranges of a
/// `BTreeMap`.
#[verifier::external_body]
fn first_at_or_after(m: &BTreeMap<u64, u128>, from: u64) -> (r: Option<(u64, u128)>)
    ensures
        match r {
            Some((k, v)) => is_successor(m@, from, k) && m@[k] == v,
            None => forall|j: u64| m@.contains_key(j) ==> j < from,
        },
{
    m.range(from..).next().map(|(k, v)| (*k, *v))
}

/// `k` is the least ring position at or after `h`.
pub open spec fn is_successor(nodes: Map<u64, u128>, h: u64, k: u64) -> bool {
    &&& nodes.contains_key(k)
    &&& k >= h
    &&& forall|j: u64| #[trigger] nodes.contains_key(j) && j >= h ==> k <= j
}

/// Some ring position is at or after `h`.
pub open spec fn has_at_or_after(nodes: Map<u64, u128>, h: u64) -> bool {
    exists|k: u64| #[trigger] nodes.contains_key(k) && k >= h
}

/// The device owning ring position `h`: the first device at or after `h`,
/// else the first device of the ring; `None` on an empty ring.
pub open spec fn owner_spec(nodes: Map<u64, u128>, h: u64) -> Option<u128> {
    if has_at_or_after(nodes, h) {
        Some(nodes[choose|k: u64| is_successor(nodes, h, k)])
    } else if has_at_or_after(nodes, 0) {
        Some(nodes[choose|k: u64| is_successor(nodes, 0, k)])
    } else {
        None
    }
}

pub proof fn lemma_successor_unique(nodes: Map<u64, u128>, h: u64, a: u64, b: u64)
    requires
        is_successor(nodes, h, a),
        is_successor(nodes, h, b),
    ensures
        a == b,
{
    assert(nodes.contains_key(b) && b >= h);
    assert(nodes.contains_key(a) && a >= h);
}

pub proof fn lemma_successor_exists(nodes: Map<u64, u128>, h: u64, k0: u64)
    requires
        nodes.contains_key(k0),
        k0 >= h,
    ensures
        exists|k: u64| is_successor(nodes, h, k),
    decreases k0 - h,
{
    if !is_successor(nodes, h, k0) {
        let j = choose|j: u64| #[trigger] nodes.contains_key(j) && j >= h && !(k0 <= j);
        lemma_successor_exists(nodes, h, j);
    }
}

/// The successor that `owner_spec` picks, when one exists.
pub proof fn lemma_successor_choice(nodes: Map<u64, u128>, h: u64)
    requires
        has_at_or_after(nodes, h),
    ensures
        is_successor(nodes, h, choose|k: u64| is_successor(nodes, h, k)),
{
    let k0 = choose|k: u64| #[trigger] nodes.contains_key(k) && k >= h;
    lemma_successor_exists(nodes, h, k0);
}

/// A ring with a single device assigns every position to it.
pub proof fn lemma_single_device_owns_all(k: u64, id: u128, h: u64)
    ensures
        owner_spec(Map::<u64, u128>::empty().insert(k, id), h) == Some(id),
{
    let nodes = Map::<u64, u128>::empty().insert(k, id);
    assert(nodes.contains_key(k) && k >= 0);
    if has_at_or_after(nodes, h) {
        lemma_successor_choice(nodes, h);
    } else {
        lemma_successor_choice(nodes, 0);
    }
}

/// Adding a device to the ring moves positions only to that device: every
/// position keeps its owner or passes to the added device.
pub proof fn lemma_add_moves_only_to_new_device(nodes: Map<u64, u128>, k: u64, id: u128, h: u64)
    ensures
        owner_spec(nodes.insert(k, id), h) == owner_spec(nodes, h) || owner_spec(
            nodes.insert(k, id),
            h,
        ) == Some(id),
{
    let new = nodes.insert(k, id);
    assert(new.contains_key(k) && k >= 0);
    lemma_successor_choice(new, 0);
    if has_at_or_after(nodes, h) {
        lemma_successor_choice(nodes, h);
        let s = choose|j: u64| is_successor(nodes, h, j);
        assert(new.contains_key(s) && s >= h);
        lemma_successor_choice(new, h);
        let t = choose|j: u64| is_successor(new, h, j);
        if t != k {
            assert(nodes.contains_key(t));
            assert(is_successor(nodes, h, t));
            lemma_successor_unique(nodes, h, s, t);
        }
    } else if has_at_or_after(new, h) {
        lemma_successor_choice(new, h);
        let t = choose|j: u64| is_successor(new, h, j);
        if t != k {
            assert(nodes.contains_key(t) && t >= h);
        }
    } else if has_at_or_after(nodes, 0) {
        lemma_successor_choice(nodes, 0);
        let s = choose|j: u64| is_successor(nodes, 0, j);
        let t = choose|j: u64| is_successor(new, 0, j);
        if t != k {
            assert(nodes.contains_key(t));
            assert forall|j: u64| #[trigger] nodes.contains_key(j) && j >= 0 implies t <= j by {
                assert(new.contains_key(j));
            }
            assert(is_successor(nodes, 0, t));
            lemma_successor_unique(nodes, 0, s, t);
        }
    } else {
        let t = choose|j: u64| is_successor(new, 0, j);
        if t != k {
            assert(nodes.contains_key(t) && t >= 0);
        }
    }
}

/// Removing a device from the ring moves only the positions it owned: every
/// position owned by another device keeps its owner.
pub proof fn lemma_remove_keeps_other_owners(nodes: Map<u64, u128>, k: u64, h: u64)
    requires
        nodes.contains_key(k),
        owner_spec(nodes, h) != Some(nodes[k]),
    ensures
        owner_spec(nodes.remove(k), h) == owner_spec(nodes, h),
{
    let new = nodes.remove(k);
    assert(nodes.contains_key(k) && k >= 0);
    lemma_successor_choice(nodes, 0);
    if has_at_or_after(nodes, h) {
        lemma_successor_choice(nodes, h);
        let s = choose|j: u64| is_successor(nodes, h, j);
        assert(s != k);
        assert(new.contains_key(s) && s >= h);
        lemma_successor_choice(new, h);
        let t = choose|j: u64| is_successor(new, h, j);
        assert(is_successor(new, h, s));
        lemma_successor_unique(new, h, s, t);
    } else {
        let s = choose|j: u64| is_successor(nodes, 0, j);
        assert(s != k);
        assert(new.contains_key(s) && s >= 0);
        assert(!has_at_or_after(new, h));
        lemma_successor_choice(new, 0);
        let t = choose|j: u64| is_successor(new, 0, j);
        assert(is_successor(new, 0, s));
        lemma_successor_unique(new, 0, s, t);
    }
}

/// The consistent-hash ring of a team's devices.
pub struct HashRing {
    nodes: BTreeMap<u64, u128>,
    devices: HashMap<u128, Device>,
}

impl HashRing {
    /// Ring positions and the device placed at each.
    pub closed spec fn nodes(&self) -> Map<u64, u128> {
        self.nodes@
    }

    /// The devices on the ring, by id.
    pub closed spec fn devices(&self) -> Map<u128, Device> {
        self.devices@
    }

    /// An empty ring.
    pub fn new() -> (r: HashRing)
        ensures
            r.nodes() == Map::<u64, u128>::empty(),
            r.devices() == Map::<u128, Device>::empty(),
    {
        HashRing { nodes: BTreeMap::new(), devices: HashMap::new() }
    }

    /// Places `device` on the ring at the hash of its id.
    pub fn add_device(&mut self, device: &Device)
        ensures
            final(self).nodes() == old(self).nodes().insert(device_hash(device.id), device.id),
            final(self).devices() == old(self).devices().insert(device.id, *device),
    {
        let hash = hash_device(device.id);
        self.nodes.insert(hash, device.id);
        self.devices.insert(device.id, device.duplicate());
    }

    /// Takes the device with id `device_id` off the ring.
    pub fn remove_device(&mut self, device_id: u128)
        ensures
            final(self).nodes() == old(self).nodes().remove(device_hash(device_id)),
            final(self).devices() == old(self).devices().remove(device_id),
    {
        let hash = hash_device(device_id);
        self.nodes.remove(&hash);
        self.devices.remove(&device_id);
    }

    /// The device that owns `url`; `None` when the ring is empty.
    pub fn get_owner(&self, url: &str) -> (r: Option<u128>)
        ensures
            r == owner_spec(self.nodes(), url_hash(url@)),
            r is None <==> self.nodes().dom().is_empty(),
            r matches Some(id) ==> exists|k: u64| #[trigger] self.nodes().contains_key(k)
                && self.nodes()[k] == id,
    {
        let url_hash = hash_url(url);
        let nodes = &self.nodes;
        match first_at_or_after(nodes, url_hash) {
            Some((k, id)) => {
                proof {
                    let c = choose|j: u64| is_successor(nodes@, url_hash, j);
                    lemma_successor_unique(nodes@, url_hash, k, c);
                    assert(!nodes@.dom().is_empty()) by {
                        assert(nodes@.dom().contains(k));
                    }
                }
                Some(id)
            },
            None => match first_at_or_after(nodes, 0) {
                Some((k, id)) => {
                    proof {
                        let c = choose|j: u64| is_successor(nodes@, 0, j);
                        lemma_successor_unique(nodes@, 0, k, c);
                        assert(!nodes@.dom().is_empty()) by {
                            assert(nodes@.dom().contains(k));
                        }
                    }
                    Some(id)
                },
                None => {
                    proof {
                        assert(nodes@.dom() =~= Set::<u64>::empty());
                    }
                    None
                },
            },
        }
    }
}

impl Default for HashRing {
    fn default() -> (r: HashRing)
        ensures
            r.nodes() == Map::<u64, u128>::empty(),
            r.devices() == Map::<u128, Device>::empty(),
    {
        HashRing::new()
    }
}

} // verus!
