//! The devices that a scan has found, by address.
use vstd::prelude::*;

use vstd::hash_set::StringHashSet;

use crate::ble::BluestDevice;

verus! {

/// A table from the address of a device, exactly as it was reported, to the device.
pub struct DeviceTable {
    rows: Vec<(String, BluestDevice)>,
}

/// The device of the first row, from position `from` on, that has the given address.
spec fn first_from(
    rows: Seq<(String, BluestDevice)>,
    addr: Seq<char>,
    from: int,
) -> Option<BluestDevice>
    decreases rows.len() - from,
{
    if from < 0 || from >= rows.len() {
        None
    } else if rows[from].0@ == addr {
        Some(rows[from].1)
    } else {
        first_from(rows, addr, from + 1)
    }
}

impl View for DeviceTable {
    type V = Map<Seq<char>, BluestDevice>;

    closed spec fn view(&self) -> Map<Seq<char>, BluestDevice> {
        Map::new(
            |addr: Seq<char>| first_from(self.rows@, addr, 0) is Some,
            |addr: Seq<char>| first_from(self.rows@, addr, 0)->0,
        )
    }
}

/// Every row from `from` on is found under its own address, and nothing else is found.
proof fn lemma_first_from(rows: Seq<(String, BluestDevice)>, addr: Seq<char>, from: int)
    requires
        0 <= from,
    ensures
        first_from(rows, addr, from) is Some <==> exists|i: int|
            from <= i < rows.len() && #[trigger] rows[i].0@ == addr,
    decreases rows.len() - from,
{
    if from < rows.len() && rows[from].0@ != addr {
        lemma_first_from(rows, addr, from + 1);
    }
}

/// A row put at the end is found where no earlier row has its address.
proof fn lemma_push(
    rows: Seq<(String, BluestDevice)>,
    row: (String, BluestDevice),
    addr: Seq<char>,
    from: int,
)
    requires
        0 <= from <= rows.len(),
    ensures
        first_from(rows.push(row), addr, from) == if first_from(rows, addr, from) is Some {
            first_from(rows, addr, from)
        } else if row.0@ == addr {
            Some(row.1)
        } else {
            None
        },
    decreases rows.len() - from,
{
    reveal_with_fuel(first_from, 2);
    if from < rows.len() && rows[from].0@ != addr {
        lemma_push(rows, row, addr, from + 1);
    }
}

/// Replacing the first row of an address replaces what is found under that address alone.
proof fn lemma_update(
    rows: Seq<(String, BluestDevice)>,
    at: int,
    row: (String, BluestDevice),
    addr: Seq<char>,
    from: int,
)
    requires
        0 <= from <= at < rows.len(),
        row.0@ == rows[at].0@,
        forall|i: int| from <= i < at ==> #[trigger] rows[i].0@ != row.0@,
    ensures
        first_from(rows.update(at, row), addr, from) == if addr == row.0@ {
            Some(row.1)
        } else {
            first_from(rows, addr, from)
        },
    decreases at - from,
{
    if from < at {
        lemma_update(rows, at, row, addr, from + 1);
    } else {
        lemma_tail(rows, rows.update(at, row), addr, from + 1);
    }
}

/// What is found from a position on depends on the rows from there on.
proof fn lemma_tail(
    a: Seq<(String, BluestDevice)>,
    b: Seq<(String, BluestDevice)>,
    addr: Seq<char>,
    from: int,
)
    requires
        0 <= from,
        a.len() == b.len(),
        forall|i: int| from <= i < a.len() ==> #[trigger] a[i] == b[i],
    ensures
        first_from(a, addr, from) == first_from(b, addr, from),
    decreases a.len() - from,
{
    if from < a.len() {
        lemma_tail(a, b, addr, from + 1);
    }
}

impl DeviceTable {
    /// The table without devices.
    pub fn new() -> (r: DeviceTable)
        ensures
            r@ == Map::<Seq<char>, BluestDevice>::empty(),
    {
        let r = DeviceTable { rows: Vec::new() };
        assert(r@ =~= Map::<Seq<char>, BluestDevice>::empty());
        r
    }

    /// Takes every device out.
    pub fn clear(&mut self)
        ensures
            final(self)@ == Map::<Seq<char>, BluestDevice>::empty(),
    {
        self.rows = Vec::new();
        assert(self@ =~= Map::<Seq<char>, BluestDevice>::empty());
    }

    /// The device found under an address.
    pub fn get(&self, addr: &String) -> (r: Option<BluestDevice>)
        ensures
            r == if self@.contains_key(addr@) {
                Some(self@[addr@])
            } else {
                None
            },
    {
        for i in 0..self.rows.len()
            invariant
                first_from(self.rows@, addr@, 0) == first_from(self.rows@, addr@, i as int),
        {
            if self.rows[i].0 == *addr {
                return Some(self.rows[i].1);
            }
        }
        None
    }

    /// Whether a device is found under an address.
    pub fn contains_key(&self, addr: &String) -> (r: bool)
        ensures
            r == self@.contains_key(addr@),
    {
        self.get(addr).is_some()
    }

    /// Puts a device under an address, in place of the one that was there.
    pub fn insert(&mut self, addr: String, device: BluestDevice)
        ensures
            final(self)@ == old(self)@.insert(addr@, device),
    {
        let ghost before = self.rows@;
        let ghost wanted = addr@;
        let count: usize = self.rows.len();
        for i in 0..count
            invariant
                count == before.len(),
                self.rows@ == before,
                wanted == addr@,
                self@ == old(self)@,
                forall|j: int| 0 <= j < i ==> #[trigger] before[j].0@ != wanted,
        {
            if self.rows[i].0 == addr {
                let row = (addr, device);
                proof {
                    assert forall|a: Seq<char>|
                        first_from(#[trigger] before.update(i as int, row), a, 0) == if a == wanted {
                            Some(device)
                        } else {
                            first_from(before, a, 0)
                        } by {
                        lemma_update(before, i as int, row, a, 0);
                    }
                }
                self.rows.set(i, row);
                assert(self@ =~= old(self)@.insert(wanted, device));
                return ;
            }
        }
        let row = (addr, device);
        proof {
            lemma_first_from(before, wanted, 0);
            assert forall|a: Seq<char>|
                first_from(#[trigger] before.push(row), a, 0) == if a == wanted {
                    Some(device)
                } else {
                    first_from(before, a, 0)
                } by {
                lemma_push(before, row, a, 0);
            }
        }
        self.rows.push(row);
        assert(self@ =~= old(self)@.insert(wanted, device));
    }

    /// The addresses under which a device is found.
    pub fn keys(&self) -> (r: StringHashSet)
        ensures
            r@ == self@.dom(),
    {
        let mut out = StringHashSet::new();
        for i in 0..self.rows.len()
            invariant
                forall|a: Seq<char>| #[trigger]
                    out@.contains(a) <==> exists|j: int|
                        0 <= j < i && #[trigger] self.rows@[j].0@ == a,
        {
            let ghost known = out@;
            out.insert(self.rows[i].0.clone());
            assert forall|a: Seq<char>| #[trigger] out@.contains(a) <==> exists|j: int|
                0 <= j < i + 1 && #[trigger] self.rows@[j].0@ == a by {
                assert(known.contains(a) ==> out@.contains(a));
                if a == self.rows@[i as int].0@ {
                    assert(out@.contains(a));
                } else {
                    assert(out@.contains(a) ==> known.contains(a));
                }
            }
        }
        proof {
            assert forall|a: Seq<char>| #[trigger] out@.contains(a) <==> self@.dom().contains(a) by {
                lemma_first_from(self.rows@, a, 0);
            }
            assert(out@ =~= self@.dom());
        }
        out
    }
}

} // verus!
