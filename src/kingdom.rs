//! The kingdoms and the store of their resources.
use vstd::prelude::*;

use crate::resource::{
    KingdomID, MAX_VALUE, RESOURCE_TYPE_COUNT, Resource, ResourceReference, ResourceTypes,
};
use crate::text::{nat_text, nat_to_text};
use vstd::arithmetic::div_mod::lemma_fundamental_div_mod_converse;

verus! {

/// The amount every resource holds when a game starts.
pub const STARTING_VALUE: u32 = 50;

/// How many kingdoms a game starts with.
pub const KINGDOM_COUNT: usize = 2;

/// The largest size the pending change of a resource may reach.
pub const CHANGE_LIMIT: i128 = 0x1_0000_0000_0000_0000_0000_0000;

/// A kingdom: its number and its display name.
#[derive(Debug)]
pub struct Kingdom {
    pub id: KingdomID,
    pub name: String,
}

/// Why a resource could not be reached.
#[derive(Debug, Clone, Copy, PartialEq, Eq, Structural)]
pub enum ResourceError {
    /// The reference names a kingdom that does not exist.
    NotFound,
}

/// The committed amount after `change` is applied to `value`, kept within `0..=MAX_VALUE`.
pub open spec fn committed(value: int, change: int) -> int {
    if value + change < 0 {
        0
    } else if value + change > MAX_VALUE {
        MAX_VALUE as int
    } else {
        value + change
    }
}

/// The display name of kingdom number `n`.
pub open spec fn kingdom_name(n: nat) -> Seq<char> {
    seq!['K', 'i', 'n', 'g', 'd', 'o', 'm', ' '] + nat_text(n)
}

/// A reference names the resource at its slot, and the slots of a store's
/// `count` kingdoms come before `count * RESOURCE_TYPE_COUNT`.
pub proof fn lemma_slot_round_trip(r: ResourceReference, count: nat)
    requires
        1 <= r.kingdom.0 <= count,
    ensures
        0 <= ResourceStore::slot(r) < count * RESOURCE_TYPE_COUNT,
        ResourceStore::reference_at(ResourceStore::slot(r)) == r,
{
    let i = ResourceStore::slot(r);
    lemma_fundamental_div_mod_converse(i, 6, r.kingdom.0 - 1, r.resource.index_spec());
    assert(i < count * 6) by (nonlinear_arith)
        requires
            i == (r.kingdom.0 - 1) * 6 + r.resource.index_spec(),
            r.resource.index_spec() < 6,
            r.kingdom.0 <= count,
    ;
}

/// Every kingdom's resources, one entry per kingdom and kind of resource.
pub struct ResourceStore {
    kingdoms: Vec<Kingdom>,
    resources: Vec<Resource>,
}

impl ResourceStore {
    /// How many kingdoms the store holds; they are numbered from 1.
    pub closed spec fn kingdom_count(&self) -> nat {
        self.kingdoms@.len()
    }

    /// The display names of the kingdoms, kingdom 1 first.
    pub closed spec fn names(&self) -> Seq<Seq<char>> {
        self.kingdoms@.map_values(|k: Kingdom| k.name@)
    }

    /// The resources, in slot order (see `slot`).
    pub closed spec fn view(&self) -> Seq<Resource> {
        self.resources@
    }

    /// Kingdom number `i + 1` stands at position `i`.
    pub closed spec fn ids_in_order(&self) -> bool {
        forall|i: int| 0 <= i < self.kingdoms@.len() ==> #[trigger] self.kingdoms@[i].id.0 == i + 1
    }

    /// Each kingdom has one resource of each kind, and no pending change
    /// passes `CHANGE_LIMIT`.
    pub open spec fn wf(&self) -> bool {
        &&& self.ids_in_order()
        &&& self@.len() == self.kingdom_count() * RESOURCE_TYPE_COUNT
        &&& self@.len() <= usize::MAX
        &&& forall|i: int|
            0 <= i < self@.len() ==> -CHANGE_LIMIT <= #[trigger] self@[i].change <= CHANGE_LIMIT
    }

    /// The reference names a kingdom of the store.
    pub open spec fn valid(&self, r: ResourceReference) -> bool {
        1 <= r.kingdom.0 <= self.kingdom_count()
    }

    /// Where the resource named by `r` stands in the view.
    pub open spec fn slot(r: ResourceReference) -> int {
        (r.kingdom.0 - 1) * RESOURCE_TYPE_COUNT + r.resource.index_spec()
    }

    /// The resource named by `r`.
    pub open spec fn get(&self, r: ResourceReference) -> Resource {
        self@[Self::slot(r)]
    }

    /// The reference to the resource at a slot of the view.
    pub open spec fn reference_at(i: int) -> ResourceReference {
        ResourceReference {
            kingdom: KingdomID((i / RESOURCE_TYPE_COUNT as int + 1) as usize),
            resource: ResourceTypes::at_index(i % RESOURCE_TYPE_COUNT as int),
        }
    }

    /// A valid reference names the resource at its slot, inside the view.
    pub proof fn lemma_slot(&self, r: ResourceReference)
        requires
            self.wf(),
            self.valid(r),
        ensures
            0 <= Self::slot(r) < self@.len(),
            Self::reference_at(Self::slot(r)) == r,
    {
        lemma_slot_round_trip(r, self.kingdom_count());
    }

    /// Every slot of the view holds the resource of a valid reference.
    pub proof fn lemma_reference_at(&self, i: int)
        requires
            self.wf(),
            0 <= i < self@.len(),
        ensures
            self.valid(Self::reference_at(i)),
            Self::slot(Self::reference_at(i)) == i,
    {
        let q = i / 6;
        let t = i % 6;
        assert(i == q * 6 + t && 0 <= t < 6 && 0 <= q) by (nonlinear_arith)
            requires
                0 <= i,
                q == i / 6,
                t == i % 6,
        ;
        assert(q < self.kingdom_count()) by (nonlinear_arith)
            requires
                i == q * 6 + t,
                0 <= t,
                i < self@.len(),
                self@.len() == self.kingdom_count() * 6,
        ;
        assert(ResourceTypes::at_index(t).index_spec() == t);
    }

    /// Two kingdoms, "Kingdom 1" and "Kingdom 2", each with every kind of
    /// resource at the starting amount and no pending change.
    pub fn setup_kingdoms() -> (s: ResourceStore)
        ensures
            s.wf(),
            s.kingdom_count() == KINGDOM_COUNT,
            forall|i: int| 0 <= i < KINGDOM_COUNT ==> s.names()[i] == kingdom_name((i + 1) as nat),
            forall|i: int|
                0 <= i < s@.len() ==> #[trigger] s@[i] == (Resource {
                    value: STARTING_VALUE,
                    change: 0,
                }),
    {
        let mut kingdoms: Vec<Kingdom> = Vec::new();
        let mut resources: Vec<Resource> = Vec::new();
        let mut k: usize = 0;
        while k < KINGDOM_COUNT
            invariant
                k <= KINGDOM_COUNT,
                kingdoms@.len() == k,
                resources@.len() == k * RESOURCE_TYPE_COUNT,
                forall|i: int| 0 <= i < k ==> #[trigger] kingdoms@[i].id.0 == i + 1,
                forall|i: int| 0 <= i < k ==> #[trigger] kingdoms@[i].name@ == kingdom_name((i + 1) as nat),
                forall|i: int|
                    0 <= i < resources@.len() ==> #[trigger] resources@[i] == (Resource {
                        value: STARTING_VALUE,
                        change: 0,
                    }),
            decreases KINGDOM_COUNT - k,
        {
            proof {
                reveal_strlit("Kingdom ");
            }
            let mut name = String::from_str("Kingdom ");
            let number = nat_to_text((k + 1) as u64);
            name.append(number.as_str());
            kingdoms.push(Kingdom { id: KingdomID(k + 1), name });
            let mut t: usize = 0;
            while t < RESOURCE_TYPE_COUNT
                invariant
                    t <= RESOURCE_TYPE_COUNT,
                    k < KINGDOM_COUNT,
                    resources@.len() == k * RESOURCE_TYPE_COUNT + t,
                    forall|i: int|
                        0 <= i < resources@.len() ==> #[trigger] resources@[i] == (Resource {
                            value: STARTING_VALUE,
                            change: 0,
                        }),
                decreases RESOURCE_TYPE_COUNT - t,
            {
                resources.push(Resource { value: STARTING_VALUE, change: 0 });
                t = t + 1;
            }
            k = k + 1;
        }
        let s = ResourceStore { kingdoms, resources };
        assert(forall|i: int| 0 <= i < KINGDOM_COUNT ==> s.names()[i] == kingdom_name((i + 1) as nat));
        s
    }

    /// How many kingdoms the store holds.
    pub fn kingdom_count_exec(&self) -> (n: usize)
        ensures
            n == self.kingdom_count(),
    {
        self.kingdoms.len()
    }

    /// The kingdom with the given number, if there is one.
    pub fn kingdom(&self, id: KingdomID) -> (k: Option<&Kingdom>)
        requires
            self.wf(),
        ensures
            k.is_some() <==> 1 <= id.0 <= self.kingdom_count(),
            k.is_some() ==> k.unwrap().id == id && k.unwrap().name@ == self.names()[id.0 - 1],
    {
        if id.0 >= 1 && id.0 <= self.kingdoms.len() {
            assert(self.names()[id.0 - 1] == self.kingdoms@[id.0 - 1].name@);
            assert(self.kingdoms@[id.0 - 1].id.0 == id.0);
            Some(&self.kingdoms[id.0 - 1])
        } else {
            None
        }
    }

    fn slot_exec(r: &ResourceReference) -> (i: usize)
        requires
            1 <= r.kingdom.0,
            Self::slot(*r) <= usize::MAX,
        ensures
            i == Self::slot(*r),
    {
        assert((r.kingdom.0 - 1) * 6 <= Self::slot(*r));
        (r.kingdom.0 - 1) * RESOURCE_TYPE_COUNT + r.resource.index()
    }

    /// Whether the reference names a resource of the store.
    pub fn contains(&self, r: &ResourceReference) -> (b: bool)
        ensures
            b == self.valid(*r),
    {
        r.kingdom.0 >= 1 && r.kingdom.0 <= self.kingdoms.len()
    }

    /// The resource named by `r`, or `NotFound` when `r` names no kingdom of the store.
    pub fn lookup(&self, r: &ResourceReference) -> (res: Result<Resource, ResourceError>)
        requires
            self.wf(),
        ensures
            self.valid(*r) ==> res == Ok::<Resource, ResourceError>(self.get(*r)),
            !self.valid(*r) ==> res == Err::<Resource, ResourceError>(ResourceError::NotFound),
    {
        if self.contains(r) {
            proof {
                self.lemma_slot(*r);
            }
            let i = Self::slot_exec(r);
            Ok(self.resources[i])
        } else {
            Err(ResourceError::NotFound)
        }
    }

    /// The resource named by `r`, which must name a kingdom of the store.
    pub fn resource(&self, r: &ResourceReference) -> (res: Resource)
        requires
            self.wf(),
            self.valid(*r),
        ensures
            res == self.get(*r),
    {
        proof {
            self.lemma_slot(*r);
        }
        let i = Self::slot_exec(r);
        self.resources[i]
    }

    /// Adds `delta` to the pending change of the resource named by `r`.
    pub fn add_change(&mut self, r: &ResourceReference, delta: i128)
        requires
            old(self).wf(),
            old(self).valid(*r),
            -CHANGE_LIMIT <= old(self).get(*r).change + delta <= CHANGE_LIMIT,
        ensures
            final(self).wf(),
            final(self).kingdom_count() == old(self).kingdom_count(),
            final(self).names() == old(self).names(),
            final(self)@ == old(self)@.update(
                Self::slot(*r),
                Resource { value: old(self).get(*r).value, change: (old(self).get(*r).change + delta) as i128 },
            ),
    {
        proof {
            self.lemma_slot(*r);
        }
        let i = Self::slot_exec(r);
        let old_res = self.resources[i];
        self.resources.set(i, Resource { value: old_res.value, change: old_res.change + delta });
    }

    /// Sets the pending change of every resource to zero.
    pub fn clear_changes(&mut self)
        requires
            old(self).wf(),
        ensures
            final(self).wf(),
            final(self).kingdom_count() == old(self).kingdom_count(),
            final(self).names() == old(self).names(),
            final(self)@.len() == old(self)@.len(),
            forall|i: int|
                0 <= i < final(self)@.len() ==> #[trigger] final(self)@[i] == (Resource {
                    value: old(self)@[i].value,
                    change: 0,
                }),
    {
        let mut i: usize = 0;
        while i < self.resources.len()
            invariant
                self.kingdoms == old(self).kingdoms,
                self.resources@.len() == old(self).resources@.len(),
                i <= self.resources@.len(),
                forall|j: int|
                    0 <= j < i ==> #[trigger] self.resources@[j] == (Resource {
                        value: old(self).resources@[j].value,
                        change: 0,
                    }),
                forall|j: int| i <= j < self.resources@.len() ==> #[trigger] self.resources@[j] == old(self).resources@[j],
            decreases self.resources@.len() - i,
        {
            let v = self.resources[i].value;
            self.resources.set(i, Resource { value: v, change: 0 });
            i = i + 1;
        }
    }

    /// Moves every pending change into the committed amount, which stays
    /// within `0..=MAX_VALUE`. The pending changes are kept.
    pub fn commit_changes(&mut self)
        requires
            old(self).wf(),
        ensures
            final(self).wf(),
            final(self).kingdom_count() == old(self).kingdom_count(),
            final(self).names() == old(self).names(),
            final(self)@.len() == old(self)@.len(),
            forall|i: int|
                0 <= i < final(self)@.len() ==> #[trigger] final(self)@[i] == (Resource {
                    value: committed(old(self)@[i].value as int, old(self)@[i].change as int) as u32,
                    change: old(self)@[i].change,
                }),
    {
        let mut i: usize = 0;
        while i < self.resources.len()
            invariant
                self.kingdoms == old(self).kingdoms,
                self.resources@.len() == old(self).resources@.len(),
                i <= self.resources@.len(),
                old(self).wf(),
                forall|j: int|
                    0 <= j < i ==> #[trigger] self.resources@[j] == (Resource {
                        value: committed(
                            old(self).resources@[j].value as int,
                            old(self).resources@[j].change as int,
                        ) as u32,
                        change: old(self).resources@[j].change,
                    }),
                forall|j: int| i <= j < self.resources@.len() ==> #[trigger] self.resources@[j] == old(self).resources@[j],
            decreases self.resources@.len() - i,
        {
            let res = self.resources[i];
            assert(-CHANGE_LIMIT <= old(self)@[i as int].change <= CHANGE_LIMIT);
            let total: i128 = res.value as i128 + res.change;
            let value: u32 = if total < 0 {
                0
            } else if total > MAX_VALUE as i128 {
                MAX_VALUE
            } else {
                total as u32
            };
            self.resources.set(i, Resource { value, change: res.change });
            i = i + 1;
        }
    }
}

} // verus!
