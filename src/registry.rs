//! The mapper registry: the sessions that may hold an opened mapper, keyed by device
//! path. A session claims its device here at its first step, before anything is unmounted,
//! and gives the claim back once the container is closed (or when it fails before opening it),
//! so that no two sessions ever have a mapper open on the same device.

use vstd::prelude::*;
use crate::text::str_eq;

verus! {

/// One claim: `device` is reserved for the session `operation`.
pub struct MapperClaim {
    pub device: String,
    pub operation: u128,
}

pub struct MapperRegistry {
    claims: Vec<MapperClaim>,
}

impl MapperRegistry {
    /// The claims, as (device path, operation) pairs.
    pub closed spec fn claims(&self) -> Seq<(Seq<char>, u128)> {
        self.claims@.map_values(|c: MapperClaim| (c.device@, c.operation))
    }

    /// Whether `device` is claimed by `operation`.
    pub open spec fn holds(&self, device: Seq<char>, operation: u128) -> bool {
        exists|i: int| 0 <= i < self.claims().len() && #[trigger] self.claims()[i] == (device, operation)
    }

    /// Whether `device` is claimed by any session.
    pub open spec fn is_claimed(&self, device: Seq<char>) -> bool {
        exists|i: int| 0 <= i < self.claims().len() && #[trigger] self.claims()[i].0 == device
    }

    /// No device is claimed twice.
    pub open spec fn wf(&self) -> bool {
        forall|i: int, j: int|
            0 <= i < self.claims().len() && 0 <= j < self.claims().len() && i != j ==> #[trigger] self.claims()[i].0
                != #[trigger] self.claims()[j].0
    }

    /// A registry without claims.
    pub fn new() -> (r: MapperRegistry)
        ensures
            r.wf(),
            r.claims().len() == 0,
    {
        let r = MapperRegistry { claims: Vec::new() };
        assert(r.claims() =~= Seq::<(Seq<char>, u128)>::empty());
        r
    }

    /// The index of the claim on `device`, if any.
    fn find(&self, device: &str) -> (r: Option<usize>)
        ensures
            match r {
                Some(i) => i < self.claims().len() && self.claims()[i as int].0 == device@,
                None => !self.is_claimed(device@),
            },
    {
        let mut i: usize = 0;
        while i < self.claims.len()
            invariant
                i <= self.claims@.len(),
                forall|j: int| 0 <= j < i ==> #[trigger] self.claims()[j].0 != device@,
            decreases self.claims@.len() - i,
        {
            if str_eq(self.claims[i].device.as_str(), device) {
                return Some(i);
            }
            i = i + 1;
        }
        None
    }

    /// Claims `device` for `operation`; refused when the device is already claimed.
    pub fn acquire(&mut self, device: &str, operation: u128) -> (r: bool)
        requires
            old(self).wf(),
        ensures
            final(self).wf(),
            r == !old(self).is_claimed(device@),
            r ==> final(self).claims() == old(self).claims().push((device@, operation)),
            !r ==> final(self).claims() == old(self).claims(),
            r ==> final(self).holds(device@, operation),
            forall|d: Seq<char>, o: u128| #[trigger] old(self).holds(d, o) ==> final(self).holds(d, o),
            forall|d: Seq<char>, o: u128|
                #[trigger] final(self).holds(d, o) ==> old(self).holds(d, o) || (d == device@ && o == operation),
    {
        match self.find(device) {
            Some(_) => false,
            None => {
                let ghost before = self.claims();
                self.claims.push(MapperClaim { device: String::from_str(device), operation });
                assert(self.claims() =~= before.push((device@, operation)));
                assert(self.claims()[before.len() as int] == (device@, operation));
                assert forall|d: Seq<char>, o: u128| #[trigger] old(self).holds(d, o) implies self.holds(d, o) by {
                    let k = choose|k: int| 0 <= k < before.len() && before[k] == (d, o);
                    assert(self.claims()[k] == (d, o));
                }
                assert forall|d: Seq<char>, o: u128| #[trigger] self.holds(d, o) implies old(self).holds(d, o) || (d
                    == device@ && o == operation) by {
                    let k = choose|k: int| 0 <= k < self.claims().len() && self.claims()[k] == (d, o);
                    if k < before.len() {
                        assert(before[k] == (d, o));
                    }
                }
                true
            },
        }
    }

    /// Gives back the claim of `operation` on `device`; other claims stay.
    pub fn release(&mut self, device: &str, operation: u128)
        requires
            old(self).wf(),
        ensures
            final(self).wf(),
            !final(self).holds(device@, operation),
            forall|d: Seq<char>, o: u128|
                #[trigger] old(self).holds(d, o) && (d, o) != (device@, operation) ==> final(self).holds(d, o),
            forall|d: Seq<char>, o: u128| #[trigger] final(self).holds(d, o) ==> old(self).holds(d, o),
    {
        match self.find(device) {
            Some(i) => {
                if self.claims[i].operation == operation {
                    let ghost before = self.claims();
                    self.claims.remove(i);
                    assert(self.claims() =~= before.remove(i as int));
                    assert forall|d: Seq<char>, o: u128|
                        #[trigger] old(self).holds(d, o) && (d, o) != (device@, operation) implies self.holds(d, o) by {
                        let k = choose|k: int| 0 <= k < before.len() && before[k] == (d, o);
                        if k < i {
                            assert(self.claims()[k] == (d, o));
                        } else {
                            assert(k != i);
                            assert(self.claims()[k - 1] == (d, o));
                        }
                    }
                    assert forall|d: Seq<char>, o: u128| #[trigger] self.holds(d, o) implies old(self).holds(d, o) by {
                        let k = choose|k: int| 0 <= k < self.claims().len() && self.claims()[k] == (d, o);
                        if k < i {
                            assert(before[k] == (d, o));
                        } else {
                            assert(before[k + 1] == (d, o));
                        }
                    }
                    assert(!self.holds(device@, operation)) by {
                        if self.holds(device@, operation) {
                            let k = choose|k: int| 0 <= k < self.claims().len() && self.claims()[k] == (device@, operation);
                            if k < i {
                                assert(before[k].0 == before[i as int].0);
                            } else {
                                assert(before[k + 1].0 == before[i as int].0);
                            }
                        }
                    }
                } else {
                    assert(!self.holds(device@, operation)) by {
                        if self.holds(device@, operation) {
                            let k = choose|k: int| 0 <= k < self.claims().len() && self.claims()[k] == (device@, operation);
                            assert(self.claims()[k].0 == self.claims()[i as int].0);
                        }
                    }
                }
            },
            None => {
                assert(!self.holds(device@, operation)) by {
                    if self.holds(device@, operation) {
                        let k = choose|k: int| 0 <= k < self.claims().len() && self.claims()[k] == (device@, operation);
                        assert(self.claims()[k].0 == device@);
                    }
                }
            },
        }
    }
}

/// A device is claimed by at most one session at a time.
pub proof fn lemma_single_holder(r: MapperRegistry, device: Seq<char>, a: u128, b: u128)
    requires
        r.wf(),
        r.holds(device, a),
        r.holds(device, b),
    ensures
        a == b,
{
    let i = choose|i: int| 0 <= i < r.claims().len() && r.claims()[i] == (device, a);
    let j = choose|j: int| 0 <= j < r.claims().len() && r.claims()[j] == (device, b);
    assert(r.claims()[i].0 == r.claims()[j].0);
}

} // verus!
