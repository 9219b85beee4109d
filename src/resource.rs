//! The kinds of resource a kingdom holds, and the changes a player can ask for.
use vstd::prelude::*;

verus! {

/// One of the six resources that every kingdom tracks.
#[derive(Debug, Clone, Copy, PartialEq, Eq, Structural, Hash)]
pub enum ResourceTypes {
    Food,
    Industry,
    Faith,
    Populace,
    Military,
    Happiness,
}

/// How many kinds of resource there are.
pub const RESOURCE_TYPE_COUNT: usize = 6;

impl ResourceTypes {
    /// Position of the kind in the fixed order Food, Industry, Faith, Populace, Military, Happiness.
    pub open spec fn index_spec(self) -> int {
        match self {
            ResourceTypes::Food => 0,
            ResourceTypes::Industry => 1,
            ResourceTypes::Faith => 2,
            ResourceTypes::Populace => 3,
            ResourceTypes::Military => 4,
            ResourceTypes::Happiness => 5,
        }
    }

    /// The kind at a position of the fixed order.
    pub open spec fn at_index(i: int) -> ResourceTypes {
        if i == 0 {
            ResourceTypes::Food
        } else if i == 1 {
            ResourceTypes::Industry
        } else if i == 2 {
            ResourceTypes::Faith
        } else if i == 3 {
            ResourceTypes::Populace
        } else if i == 4 {
            ResourceTypes::Military
        } else {
            ResourceTypes::Happiness
        }
    }

    /// The display name of the kind: its variant name.
    pub open spec fn name_spec(self) -> Seq<char> {
        match self {
            ResourceTypes::Food => seq!['F', 'o', 'o', 'd'],
            ResourceTypes::Industry => seq!['I', 'n', 'd', 'u', 's', 't', 'r', 'y'],
            ResourceTypes::Faith => seq!['F', 'a', 'i', 't', 'h'],
            ResourceTypes::Populace => seq!['P', 'o', 'p', 'u', 'l', 'a', 'c', 'e'],
            ResourceTypes::Military => seq!['M', 'i', 'l', 'i', 't', 'a', 'r', 'y'],
            ResourceTypes::Happiness => seq!['H', 'a', 'p', 'p', 'i', 'n', 'e', 's', 's'],
        }
    }

    pub fn index(&self) -> (r: usize)
        ensures
            r == self.index_spec(),
            r < RESOURCE_TYPE_COUNT,
            ResourceTypes::at_index(r as int) == *self,
    {
        match self {
            ResourceTypes::Food => 0,
            ResourceTypes::Industry => 1,
            ResourceTypes::Faith => 2,
            ResourceTypes::Populace => 3,
            ResourceTypes::Military => 4,
            ResourceTypes::Happiness => 5,
        }
    }

    pub fn from_index(i: usize) -> (r: ResourceTypes)
        requires
            i < RESOURCE_TYPE_COUNT,
        ensures
            r == ResourceTypes::at_index(i as int),
            r.index_spec() == i,
    {
        if i == 0 {
            ResourceTypes::Food
        } else if i == 1 {
            ResourceTypes::Industry
        } else if i == 2 {
            ResourceTypes::Faith
        } else if i == 3 {
            ResourceTypes::Populace
        } else if i == 4 {
            ResourceTypes::Military
        } else {
            ResourceTypes::Happiness
        }
    }

    pub fn name(&self) -> (r: &'static str)
        ensures
            r@ == self.name_spec(),
    {
        proof {
            reveal_strlit("Food");
            reveal_strlit("Industry");
            reveal_strlit("Faith");
            reveal_strlit("Populace");
            reveal_strlit("Military");
            reveal_strlit("Happiness");
        }
        match self {
            ResourceTypes::Food => "Food",
            ResourceTypes::Industry => "Industry",
            ResourceTypes::Faith => "Faith",
            ResourceTypes::Populace => "Populace",
            ResourceTypes::Military => "Military",
            ResourceTypes::Happiness => "Happiness",
        }
    }
}

/// The largest amount a resource can hold.
pub const MAX_VALUE: u32 = 4294967295;

/// A change a player asks for, as a function from the committed amount of a
/// resource to the amount wanted. Results stay within `0..=MAX_VALUE`: an
/// increment or a product that would pass the largest amount stops there, and a
/// decrement stops at zero.
#[derive(Debug, Clone, Copy, PartialEq, Eq, Structural)]
pub enum Transform {
    Increment(u32),
    Decrement(u32),
    SetTo(u32),
    Multiply(u32),
}

impl Transform {
    /// The amount wanted when the committed amount is `v`.
    pub open spec fn apply_spec(self, v: int) -> int {
        match self {
            Transform::Increment(n) => if v + n > MAX_VALUE {
                MAX_VALUE as int
            } else {
                v + n
            },
            Transform::Decrement(n) => if v < n {
                0
            } else {
                v - n
            },
            Transform::SetTo(n) => n as int,
            Transform::Multiply(n) => if v * n > MAX_VALUE {
                MAX_VALUE as int
            } else {
                v * n
            },
        }
    }

    /// The signed difference between the amount wanted and the committed amount `v`.
    pub open spec fn delta_spec(self, v: int) -> int {
        self.apply_spec(v) - v
    }

    pub fn apply(&self, v: u32) -> (r: u32)
        ensures
            r == self.apply_spec(v as int),
    {
        match self {
            Transform::Increment(n) => {
                let s: u64 = v as u64 + *n as u64;
                if s > MAX_VALUE as u64 {
                    MAX_VALUE
                } else {
                    s as u32
                }
            },
            Transform::Decrement(n) => {
                if v < *n {
                    0
                } else {
                    v - *n
                }
            },
            Transform::SetTo(n) => *n,
            Transform::Multiply(n) => {
                let a: u64 = v as u64;
                let b: u64 = *n as u64;
                assert(a * b <= 0xffff_ffff * 0xffff_ffff) by (nonlinear_arith)
                    requires
                        a <= 0xffff_ffff,
                        b <= 0xffff_ffff,
                ;
                let p: u64 = a * b;
                if p > MAX_VALUE as u64 {
                    MAX_VALUE
                } else {
                    p as u32
                }
            },
        }
    }

    /// The change in the committed amount `v` that the transform asks for.
    pub fn delta(&self, v: u32) -> (r: i64)
        ensures
            r == self.delta_spec(v as int),
            -(MAX_VALUE as int) <= r <= MAX_VALUE,
    {
        let target = self.apply(v);
        target as i64 - v as i64
    }
}

/// A kingdom, by its number: the first kingdom is number 1.
#[derive(Debug, Clone, Copy, PartialEq, Eq, Structural, Hash)]
pub struct KingdomID(pub usize);

/// One resource of one kingdom.
#[derive(Debug, Clone, Copy, PartialEq, Eq, Structural, Hash)]
pub struct ResourceReference {
    pub kingdom: KingdomID,
    pub resource: ResourceTypes,
}

/// The state of one resource: its committed amount and the pending signed
/// change of the turn being resolved.
#[derive(Debug, Clone, Copy, PartialEq, Eq, Structural)]
pub struct Resource {
    pub value: u32,
    pub change: i128,
}

/// Every kind of resource, in the fixed order.
pub fn starting_resources() -> (r: Vec<ResourceTypes>)
    ensures
        r@.len() == RESOURCE_TYPE_COUNT,
        forall|i: int| 0 <= i < RESOURCE_TYPE_COUNT ==> r@[i] == #[trigger] ResourceTypes::at_index(i),
{
    let mut r: Vec<ResourceTypes> = Vec::new();
    let mut i: usize = 0;
    while i < RESOURCE_TYPE_COUNT
        invariant
            i <= RESOURCE_TYPE_COUNT,
            r@.len() == i,
            forall|j: int| 0 <= j < i ==> r@[j] == #[trigger] ResourceTypes::at_index(j),
        decreases RESOURCE_TYPE_COUNT - i,
    {
        r.push(ResourceTypes::from_index(i));
        i = i + 1;
    }
    r
}

} // verus!
