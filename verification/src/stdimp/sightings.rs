//! Which of the devices that turn up in a scan are reported.
//!
//! A device may turn up many times, under addresses that differ in how they are written. It is
//! reported the first time that its key turns up; a device with a blank address is not reported.
use vstd::hash_set::StringHashSet;
use vstd::prelude::*;

use crate::address::normalize_addr_for_dedup;
#[allow(unused_imports)]
use crate::address::dedup_key;
use crate::btinterface::BluetoothDevice;
#[allow(unused_imports)]
use crate::btinterface::{entries, DeviceEntry};
use crate::driver::SppDevice;
#[allow(unused_imports)]
use crate::driver::spp_entries;

verus! {

/// The device at position `i` of a list is the first sighting of its key, which is neither empty
/// nor known from before.
pub open spec fn is_first_sighting(known: Set<Seq<char>>, list: Seq<DeviceEntry>, i: int) -> bool {
    let key = dedup_key(list[i].addr);
    &&& key.len() > 0
    &&& !known.contains(key)
    &&& forall|j: int| 0 <= j < i ==> dedup_key(#[trigger] list[j].addr) != key
}

/// The devices of a list that are sighted for the first time, in order.
pub open spec fn first_sightings(known: Set<Seq<char>>, list: Seq<DeviceEntry>) -> Seq<DeviceEntry>
    decreases list.len(),
{
    if list.len() == 0 {
        Seq::empty()
    } else {
        let earlier = first_sightings(known, list.drop_last());
        if is_first_sighting(known, list, list.len() - 1) {
            earlier.push(list.last())
        } else {
            earlier
        }
    }
}

/// The keys that are known once a list of devices has been seen.
pub open spec fn known_after(known: Set<Seq<char>>, list: Seq<DeviceEntry>) -> Set<Seq<char>>
    decreases list.len(),
{
    if list.len() == 0 {
        known
    } else {
        let key = dedup_key(list.last().addr);
        let earlier = known_after(known, list.drop_last());
        if key.len() > 0 {
            earlier.insert(key)
        } else {
            earlier
        }
    }
}

/// A key is known afterwards exactly where it was known before or is the non-empty key of a
/// device of the list.
pub proof fn law_known_after(known: Set<Seq<char>>, list: Seq<DeviceEntry>, key: Seq<char>)
    ensures
        known_after(known, list).contains(key) <==> known.contains(key) || (key.len() > 0 && exists|
            i: int,
        |
            0 <= i < list.len() && dedup_key(#[trigger] list[i].addr) == key),
    decreases list.len(),
{
    if list.len() > 0 {
        let rest = list.drop_last();
        law_known_after(known, rest, key);
        if exists|i: int| 0 <= i < list.len() && dedup_key(#[trigger] list[i].addr) == key {
            let i = choose|i: int| 0 <= i < list.len() && dedup_key(#[trigger] list[i].addr) == key;
            if i < rest.len() {
                assert(rest[i] == list[i]);
            }
        }
        if exists|i: int| 0 <= i < rest.len() && dedup_key(#[trigger] rest[i].addr) == key {
            let i = choose|i: int| 0 <= i < rest.len() && dedup_key(#[trigger] rest[i].addr) == key;
            assert(list[i] == rest[i]);
        }
        assert(list[list.len() - 1] == list.last());
    }
}

/// No key is reported twice, none that was known before is reported, and none is empty.
pub proof fn law_sightings_are_new(known: Set<Seq<char>>, list: Seq<DeviceEntry>)
    ensures
        forall|i: int|
            0 <= i < first_sightings(known, list).len() ==> {
                let key = dedup_key(#[trigger] first_sightings(known, list)[i].addr);
                key.len() > 0 && !known.contains(key) && known_after(known, list).contains(key)
            },
        forall|i: int, j: int|
            0 <= i < j < first_sightings(known, list).len() ==> dedup_key(
                #[trigger] first_sightings(known, list)[i].addr,
            ) != dedup_key(#[trigger] first_sightings(known, list)[j].addr),
    decreases list.len(),
{
    if list.len() > 0 {
        let rest = list.drop_last();
        law_sightings_are_new(known, rest);
        let out = first_sightings(known, list);
        let earlier = first_sightings(known, rest);
        if is_first_sighting(known, list, list.len() - 1) {
            let key = dedup_key(list.last().addr);
            assert(out == earlier.push(list.last()));
            assert forall|i: int| 0 <= i < earlier.len() implies dedup_key(
                #[trigger] earlier[i].addr,
            ) != key by {
                let other = dedup_key(earlier[i].addr);
                law_known_after(known, rest, other);
                let j = choose|j: int| 0 <= j < rest.len() && dedup_key(#[trigger] rest[j].addr) == other;
                assert(list[j] == rest[j]);
            }
            assert forall|i: int, j: int| 0 <= i < j < out.len() implies dedup_key(
                #[trigger] out[i].addr,
            ) != dedup_key(#[trigger] out[j].addr) by {
                assert(out[i] == earlier[i]);
                if j < earlier.len() {
                    assert(out[j] == earlier[j]);
                }
            }
            assert forall|i: int| 0 <= i < out.len() implies {
                let k = dedup_key(#[trigger] out[i].addr);
                k.len() > 0 && !known.contains(k) && known_after(known, list).contains(k)
            } by {
                if i < earlier.len() {
                    assert(out[i] == earlier[i]);
                }
            }
        }
    }
}

/// Every device with a key that is neither empty nor known before is reported under that key:
/// what is reported under it is the first device of the list that has it.
pub proof fn law_every_key_is_reported(known: Set<Seq<char>>, list: Seq<DeviceEntry>, i: int)
    requires
        0 <= i < list.len(),
        is_first_sighting(known, list, i),
    ensures
        first_sightings(known, list).contains(list[i]),
    decreases list.len(),
{
    let rest = list.drop_last();
    let earlier = first_sightings(known, rest);
    let out = first_sightings(known, list);
    if i == list.len() - 1 {
        assert(out[earlier.len() as int] == list[i]);
    } else {
        assert(rest[i] == list[i]);
        assert forall|j: int| 0 <= j < i implies dedup_key(#[trigger] rest[j].addr) != dedup_key(
            rest[i].addr,
        ) by {
            assert(rest[j] == list[j]);
        }
        law_every_key_is_reported(known, rest, i);
        let k = choose|k: int| 0 <= k < earlier.len() && earlier[k] == list[i];
        assert(out[k] == earlier[k]);
    }
}

/// Only devices of the list are reported, each because it is a first sighting.
pub proof fn law_only_first_sightings_are_reported(
    known: Set<Seq<char>>,
    list: Seq<DeviceEntry>,
    n: int,
)
    requires
        0 <= n < first_sightings(known, list).len(),
    ensures
        exists|i: int|
            0 <= i < list.len() && first_sightings(known, list)[n] == #[trigger] list[i]
                && is_first_sighting(known, list, i),
    decreases list.len(),
{
    let rest = list.drop_last();
    let earlier = first_sightings(known, rest);
    if n < earlier.len() {
        law_only_first_sightings_are_reported(known, rest, n);
        let i = choose|i: int|
            0 <= i < rest.len() && earlier[n] == #[trigger] rest[i] && is_first_sighting(known, rest, i);
        assert(rest[i] == list[i]);
        assert forall|j: int| 0 <= j < i implies dedup_key(#[trigger] list[j].addr) != dedup_key(
            list[i].addr,
        ) by {
            assert(rest[j] == list[j]);
        }
    } else {
        assert(list[list.len() - 1] == list.last());
    }
}

/// Seeing two lists one after the other reports what seeing them as one list reports.
pub proof fn law_sightings_of_two_lists(
    known: Set<Seq<char>>,
    a: Seq<DeviceEntry>,
    b: Seq<DeviceEntry>,
)
    ensures
        known_after(known, a + b) == known_after(known_after(known, a), b),
        first_sightings(known, a + b) == first_sightings(known, a) + first_sightings(
            known_after(known, a),
            b,
        ),
    decreases b.len(),
{
    if b.len() == 0 {
        assert(a + b =~= a);
        assert(first_sightings(known, a) + first_sightings(known_after(known, a), b)
            =~= first_sightings(known, a));
    } else {
        let c = b.drop_last();
        law_sightings_of_two_lists(known, a, c);
        let list = a + b;
        let mid = known_after(known, a);
        assert(list.drop_last() =~= a + c);
        assert(list.last() == b.last());
        let key = dedup_key(b.last().addr);
        law_known_after(known, a, key);
        assert(is_first_sighting(known, list, list.len() - 1) == is_first_sighting(
            mid,
            b,
            b.len() - 1,
        )) by {
            if is_first_sighting(known, list, list.len() - 1) {
                if mid.contains(key) {
                    let i = choose|i: int| 0 <= i < a.len() && dedup_key(#[trigger] a[i].addr) == key;
                    assert(list[i] == a[i]);
                }
                assert forall|j: int| 0 <= j < b.len() - 1 implies dedup_key(#[trigger] b[j].addr)
                    != key by {
                    assert(list[a.len() + j] == b[j]);
                }
            }
            if is_first_sighting(mid, b, b.len() - 1) {
                assert forall|j: int| 0 <= j < list.len() - 1 implies dedup_key(
                    #[trigger] list[j].addr,
                ) != key by {
                    if j < a.len() {
                        assert(list[j] == a[j]);
                    } else {
                        assert(list[j] == b[j - a.len()]);
                    }
                }
            }
        }
        assert(first_sightings(known, list) =~= first_sightings(known, a) + first_sightings(mid, b));
    }
}

/// Notes the key of an address. Says whether it is new; an empty key is never noted.
pub(crate) fn note_key(known: &mut StringHashSet, addr: &str) -> (r: bool)
    ensures
        r == (dedup_key(addr@).len() > 0 && !old(known)@.contains(dedup_key(addr@))),
        final(known)@ == if dedup_key(addr@).len() > 0 {
            old(known)@.insert(dedup_key(addr@))
        } else {
            old(known)@
        },
{
    let key = normalize_addr_for_dedup(addr);
    if key.as_str().is_empty() {
        return false;
    }
    known.insert(key)
}

/// The classic devices that are sighted for the first time, ready to be reported.
pub(crate) fn report_first_sightings(known: &mut StringHashSet, devices: Vec<SppDevice>) -> (r: Vec<
    BluetoothDevice,
>)
    ensures
        entries(r@) == first_sightings(old(known)@, spp_entries(devices@)),
        final(known)@ == known_after(old(known)@, spp_entries(devices@)),
{
    let ghost before = known@;
    let ghost list = spp_entries(devices@);
    let mut out: Vec<BluetoothDevice> = Vec::new();
    assert(list.take(0) =~= Seq::<DeviceEntry>::empty());
    assert(entries(out@) =~= first_sightings(before, list.take(0)));
    for d in it: devices
        invariant
            it.seq() == devices@,
            list == spp_entries(devices@),
            known@ == known_after(before, list.take(it.index())),
            entries(out@) == first_sightings(before, list.take(it.index())),
    {
        let ghost n = it.index();
        let ghost now = list.take(n + 1);
        let ghost key = dedup_key(d.address@);
        proof {
            assert(d@ == list[n]);
            assert(now.drop_last() =~= list.take(n));
            assert(now.last() == list[n]);
            law_known_after(before, list.take(n), key);
            assert(is_first_sighting(before, now, n) == (key.len() > 0 && !known@.contains(key))) by {
                if known@.contains(key) && !before.contains(key) {
                    let j = choose|j: int|
                        0 <= j < n && dedup_key(#[trigger] list.take(n)[j].addr) == key;
                    assert(now[j] == list.take(n)[j]);
                }
                if key.len() > 0 && !known@.contains(key) {
                    assert forall|j: int| 0 <= j < n implies dedup_key(#[trigger] now[j].addr) != key by {
                        assert(now[j] == list.take(n)[j]);
                    }
                }
            }
        }
        let ghost reported = out@;
        if note_key(known, d.address.as_str()) {
            out.push(d.into_report());
            assert(entries(out@) =~= entries(reported).push(list[n]));
        }
    }
    assert(list.take(list.len() as int) == list);
    out
}

/// `picked` are the devices of a list at the given positions, in order. Those are exactly the
/// devices whose key is not empty, is not known from before, and turns up there for the first
/// time in the list.
pub open spec fn picks(
    known: Set<Seq<char>>,
    list: Seq<DeviceEntry>,
    picked: Seq<DeviceEntry>,
    positions: Seq<int>,
) -> bool {
    &&& positions.len() == picked.len()
    &&& forall|n: int|
        0 <= n < picked.len() ==> 0 <= #[trigger] positions[n] < list.len() && picked[n]
            == list[positions[n]]
    &&& forall|n: int, m: int|
        0 <= n < m < picked.len() ==> #[trigger] positions[n] < #[trigger] positions[m]
    &&& forall|i: int|
        0 <= i < list.len() ==> (#[trigger] positions.contains(i) <==> new_at(known, list, i))
}

/// The key of the device at position `i` is not empty, is not known from before, and is that of no
/// earlier device of the list.
pub open spec fn new_at(known: Set<Seq<char>>, list: Seq<DeviceEntry>, i: int) -> bool {
    &&& dedup_key(list[i].addr).len() > 0
    &&& !known.contains(dedup_key(list[i].addr))
    &&& forall|j: int| 0 <= j < i ==> dedup_key(#[trigger] list[j].addr) != dedup_key(list[i].addr)
}

/// Every device whose key turns up for the first time is sighted, and no other, in the order of
/// the list.
pub proof fn law_first_sightings_are_picked(known: Set<Seq<char>>, list: Seq<DeviceEntry>)
    ensures
        exists|positions: Seq<int>| #[trigger]
            picks(known, list, first_sightings(known, list), positions),
{
    let positions = lemma_positions(known, list);
}

proof fn lemma_positions(known: Set<Seq<char>>, list: Seq<DeviceEntry>) -> (positions: Seq<int>)
    ensures
        picks(known, list, first_sightings(known, list), positions),
    decreases list.len(),
{
    if list.len() == 0 {
        Seq::empty()
    } else {
        let rest = list.drop_last();
        let last = list.len() - 1;
        let before = lemma_positions(known, rest);
        let picked = first_sightings(known, rest);
        assert forall|i: int| 0 <= i < rest.len() implies #[trigger] new_at(known, list, i)
            == new_at(known, rest, i) by {
            assert(rest[i] == list[i]);
            if new_at(known, list, i) {
                assert forall|j: int| 0 <= j < i implies dedup_key(#[trigger] rest[j].addr)
                    != dedup_key(rest[i].addr) by {
                    assert(rest[j] == list[j]);
                }
            }
            if new_at(known, rest, i) {
                assert forall|j: int| 0 <= j < i implies dedup_key(#[trigger] list[j].addr)
                    != dedup_key(list[i].addr) by {
                    assert(rest[j] == list[j]);
                }
            }
        }
        assert(list[last] == list.last());
        if is_first_sighting(known, list, last) {
            let positions = before.push(last);
            assert(new_at(known, list, last));
            assert forall|i: int| 0 <= i < list.len() implies (#[trigger] positions.contains(i)
                <==> new_at(known, list, i)) by {
                if positions.contains(i) {
                    let n = choose|n: int| 0 <= n < positions.len() && positions[n] == i;
                    if n < before.len() {
                        assert(before[n] == i);
                        assert(before.contains(i));
                    }
                }
                if new_at(known, list, i) {
                    if i < last {
                        assert(new_at(known, rest, i));
                        assert(before.contains(i));
                        let n = choose|n: int| 0 <= n < before.len() && before[n] == i;
                        assert(positions[n] == i);
                    } else {
                        assert(positions[before.len() as int] == i);
                    }
                }
            }
            assert forall|n: int|
                0 <= n < picked.push(list.last()).len() implies 0 <= #[trigger] positions[n]
                < list.len() && picked.push(list.last())[n] == list[positions[n]] by {
                if n < picked.len() {
                    assert(positions[n] == before[n]);
                }
            }
            assert forall|n: int, m: int|
                0 <= n < m < positions.len() implies #[trigger] positions[n]
                < #[trigger] positions[m] by {
                assert(positions[n] == before[n]);
                if m < before.len() {
                    assert(positions[m] == before[m]);
                }
            }
            positions
        } else {
            assert(!new_at(known, list, last));
            assert forall|i: int| 0 <= i < list.len() implies (#[trigger] before.contains(i)
                <==> new_at(known, list, i)) by {
                if before.contains(i) && i == last {
                    let n = choose|n: int| 0 <= n < before.len() && before[n] == i;
                    assert(before[n] < rest.len());
                }
            }
            assert forall|n: int| 0 <= n < picked.len() implies 0 <= #[trigger] before[n]
                < list.len() && picked[n] == list[before[n]] by {
                assert(rest[before[n]] == list[before[n]]);
            }
            before
        }
    }
}

} // verus!
