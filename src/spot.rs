//! Spot and vehicle classes, single spots, and counting over a row of spots.

use vstd::prelude::*;

verus! {

/// Size class of a parking spot, from smallest to largest.
#[derive(Clone, Copy, Debug, PartialEq, Eq, Structural, Hash)]
pub enum SpotType {
    Motorcycle,
    Car,
    Large,
}

/// Class of an arriving vehicle.
#[derive(Clone, Copy, Debug, PartialEq, Eq, Structural, Hash)]
pub enum VehicleType {
    /// Fits any spot; prefers the smallest class that has room.
    Motorcycle,
    /// Needs a `Car` or `Large` spot, preferring `Car`.
    Car,
    /// Needs three adjacent free `Large` spots.
    Van,
}

/// One spot of the lot: its class, fixed at construction, and whether a
/// vehicle stands on it.
#[derive(Clone, Copy, Debug, PartialEq, Eq, Structural)]
pub struct ParkingSpot {
    pub spot_type: SpotType,
    pub is_occupied: bool,
}

/// One count for each spot class.
#[derive(Clone, Copy, Debug, PartialEq, Eq, Structural)]
pub struct SpotCounts {
    pub motorcycle: usize,
    pub car: usize,
    pub large: usize,
}

impl SpotCounts {
    /// The count held for class `t`.
    pub open spec fn of(self, t: SpotType) -> nat {
        match t {
            SpotType::Motorcycle => self.motorcycle as nat,
            SpotType::Car => self.car as nat,
            SpotType::Large => self.large as nat,
        }
    }

    /// Returns the count held for class `t`.
    pub fn get(&self, t: SpotType) -> (r: usize)
        ensures
            r == self.of(t),
    {
        match t {
            SpotType::Motorcycle => self.motorcycle,
            SpotType::Car => self.car,
            SpotType::Large => self.large,
        }
    }

    /// Adds `n` to the count of class `t` and leaves the others alone.
    pub fn add(&mut self, t: SpotType, n: usize)
        requires
            old(self).of(t) + n <= usize::MAX,
        ensures
            final(self).of(t) == old(self).of(t) + n,
            forall|u: SpotType| u != t ==> final(self).of(u) == old(self).of(u),
    {
        match t {
            SpotType::Motorcycle => self.motorcycle = self.motorcycle + n,
            SpotType::Car => self.car = self.car + n,
            SpotType::Large => self.large = self.large + n,
        }
    }
}

/// How many spots of `s` satisfy `p`.
pub open spec fn count_matching(s: Seq<ParkingSpot>, p: spec_fn(ParkingSpot) -> bool) -> nat
    decreases s.len(),
{
    if s.len() == 0 {
        0
    } else {
        count_matching(s.drop_last(), p) + if p(s.last()) {
            1nat
        } else {
            0nat
        }
    }
}

/// Spots of class `t`, occupied or not.
pub open spec fn of_type(t: SpotType) -> spec_fn(ParkingSpot) -> bool {
    |x: ParkingSpot| x.spot_type == t
}

/// Occupied spots of class `t`.
pub open spec fn occupied_of_type(t: SpotType) -> spec_fn(ParkingSpot) -> bool {
    |x: ParkingSpot| x.spot_type == t && x.is_occupied
}

/// Occupied spots of any class.
pub open spec fn occupied() -> spec_fn(ParkingSpot) -> bool {
    |x: ParkingSpot| x.is_occupied
}

/// Number of spots of class `t` in `s`.
pub open spec fn count_class(s: Seq<ParkingSpot>, t: SpotType) -> nat {
    count_matching(s, of_type(t))
}

/// Number of occupied spots of class `t` in `s`.
pub open spec fn count_occupied_class(s: Seq<ParkingSpot>, t: SpotType) -> nat {
    count_matching(s, occupied_of_type(t))
}

/// Number of occupied spots in `s`.
pub open spec fn count_occupied(s: Seq<ParkingSpot>) -> nat {
    count_matching(s, occupied())
}

/// `s[i]` with its occupied flag set.
pub open spec fn occupy(s: Seq<ParkingSpot>, i: int) -> Seq<ParkingSpot> {
    s.update(i, ParkingSpot { spot_type: s[i].spot_type, is_occupied: true })
}

/// Counting over a row with one more spot at its end.
pub proof fn lemma_count_push(s: Seq<ParkingSpot>, x: ParkingSpot, p: spec_fn(ParkingSpot) -> bool)
    ensures
        count_matching(s.push(x), p) == count_matching(s, p) + if p(x) {
            1nat
        } else {
            0nat
        },
{
    assert(s.push(x).drop_last() =~= s);
}

/// Appending a free spot adds one to the count of its class and leaves the
/// occupied counts alone.
pub proof fn lemma_push_free(s: Seq<ParkingSpot>, x: ParkingSpot)
    requires
        !x.is_occupied,
    ensures
        forall|t: SpotType| #[trigger]
            count_class(s.push(x), t) == count_class(s, t) + if x.spot_type == t {
                1nat
            } else {
                0nat
            },
        forall|t: SpotType| #[trigger]
            count_occupied_class(s.push(x), t) == count_occupied_class(s, t),
        count_occupied(s.push(x)) == count_occupied(s),
{
    assert(s.push(x).drop_last() =~= s);
    assert forall|t: SpotType| #[trigger]
        count_class(s.push(x), t) == count_class(s, t) + if x.spot_type == t {
            1nat
        } else {
            0nat
        } by {
        lemma_count_push(s, x, of_type(t));
    }
    assert forall|t: SpotType| #[trigger]
        count_occupied_class(s.push(x), t) == count_occupied_class(s, t) by {
        lemma_count_push(s, x, occupied_of_type(t));
    }
}

/// A count never exceeds the length of the row.
pub proof fn lemma_count_le_len(s: Seq<ParkingSpot>, p: spec_fn(ParkingSpot) -> bool)
    ensures
        count_matching(s, p) <= s.len(),
    decreases s.len(),
{
    if s.len() > 0 {
        lemma_count_le_len(s.drop_last(), p);
    }
}

/// Replacing spot `i` by `v` changes a count by what `v` adds less what
/// `s[i]` took away.
pub proof fn lemma_count_update(
    s: Seq<ParkingSpot>,
    i: int,
    v: ParkingSpot,
    p: spec_fn(ParkingSpot) -> bool,
)
    requires
        0 <= i < s.len(),
    ensures
        count_matching(s.update(i, v), p) + (if p(s[i]) {
            1nat
        } else {
            0nat
        }) == count_matching(s, p) + if p(v) {
            1nat
        } else {
            0nat
        },
    decreases s.len(),
{
    let t = s.update(i, v);
    if i == s.len() - 1 {
        assert(t.drop_last() =~= s.drop_last());
    } else {
        assert(t.drop_last() =~= s.drop_last().update(i, v));
        lemma_count_update(s.drop_last(), i, v, p);
    }
}

/// Setting the occupied flag of a free spot keeps every class count, adds
/// one occupied spot in total, and one to the occupied count of its class.
pub proof fn lemma_occupy_counts(s: Seq<ParkingSpot>, i: int)
    requires
        0 <= i < s.len(),
        !s[i].is_occupied,
    ensures
        occupy(s, i).len() == s.len(),
        count_occupied(occupy(s, i)) == count_occupied(s) + 1,
        forall|t: SpotType| #[trigger]
            count_class(occupy(s, i), t) == count_class(s, t),
        forall|t: SpotType| #[trigger]
            count_occupied_class(occupy(s, i), t) == count_occupied_class(s, t) + if t
                == s[i].spot_type {
                1nat
            } else {
                0nat
            },
{
    let v = ParkingSpot { spot_type: s[i].spot_type, is_occupied: true };
    lemma_count_update(s, i, v, occupied());
    assert forall|t: SpotType| #[trigger]
        count_class(occupy(s, i), t) == count_class(s, t) by {
        lemma_count_update(s, i, v, of_type(t));
    }
    assert forall|t: SpotType| #[trigger]
        count_occupied_class(occupy(s, i), t) == count_occupied_class(s, t) + if t
            == s[i].spot_type {
            1nat
        } else {
            0nat
        } by {
        lemma_count_update(s, i, v, occupied_of_type(t));
    }
}

/// The occupied spots are those of the three classes together.
pub proof fn lemma_occupied_by_class(s: Seq<ParkingSpot>)
    ensures
        count_occupied(s) == count_occupied_class(s, SpotType::Motorcycle) + count_occupied_class(
            s,
            SpotType::Car,
        ) + count_occupied_class(s, SpotType::Large),
    decreases s.len(),
{
    if s.len() > 0 {
        lemma_occupied_by_class(s.drop_last());
    }
}

/// A row in which `p` holds of no spot counts zero.
pub proof fn lemma_count_none(s: Seq<ParkingSpot>, p: spec_fn(ParkingSpot) -> bool)
    ensures
        (count_matching(s, p) == 0) == (forall|j: int| 0 <= j < s.len() ==> !p(#[trigger] s[j])),
    decreases s.len(),
{
    if s.len() > 0 {
        lemma_count_none(s.drop_last(), p);
        assert forall|j: int| 0 <= j < s.len() - 1 implies s.drop_last()[j] == s[j] by {}
        if count_matching(s, p) == 0 {
            assert forall|j: int| 0 <= j < s.len() implies !p(#[trigger] s[j]) by {
                if j < s.len() - 1 {
                    assert(s.drop_last()[j] == s[j]);
                }
            }
        } else if forall|j: int| 0 <= j < s.len() ==> !p(#[trigger] s[j]) {
            assert forall|j: int| 0 <= j < s.drop_last().len() implies !p(
                #[trigger] s.drop_last()[j],
            ) by {
                assert(s.drop_last()[j] == s[j]);
            }
            assert(!p(s[s.len() - 1]));
        }
    }
}

} // verus!
