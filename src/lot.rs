//! The parking lot: a fixed row of spots and the rules that assign them.

use vstd::prelude::*;
use crate::spot::{
    count_class, count_occupied, count_occupied_class, lemma_count_le_len,
    lemma_occupied_by_class, lemma_occupy_counts, lemma_push_free, occupied, occupied_of_type,
    occupy, ParkingSpot, SpotCounts, SpotType, VehicleType,
};

verus! {

/// The row that `ParkingLot::new(m, c, l)` builds: `m` motorcycle spots, then
/// `c` car spots, then `l` large spots, all free.
pub open spec fn fresh_spots(m: nat, c: nat, l: nat) -> Seq<ParkingSpot> {
    Seq::new(
        m + c + l,
        |i: int|
            ParkingSpot {
                spot_type: if i < m {
                    SpotType::Motorcycle
                } else if i < m + c {
                    SpotType::Car
                } else {
                    SpotType::Large
                },
                is_occupied: false,
            },
    )
}

/// Spots still free: the length of the row less its occupied spots.
pub open spec fn remaining_of(s: Seq<ParkingSpot>) -> int {
    s.len() - count_occupied(s)
}

/// No spot of `s` is occupied.
pub open spec fn all_free(s: Seq<ParkingSpot>) -> bool {
    forall|j: int| 0 <= j < s.len() ==> !(#[trigger] s[j]).is_occupied
}

/// Spot `i` of `s` exists, is free and is of class `t`.
pub open spec fn is_free_of(s: Seq<ParkingSpot>, i: int, t: SpotType) -> bool {
    0 <= i < s.len() && !s[i].is_occupied && s[i].spot_type == t
}

/// Some spot of class `t` is free.
pub open spec fn has_free(s: Seq<ParkingSpot>, t: SpotType) -> bool {
    exists|i: int| is_free_of(s, i, t)
}

/// Spot `i` is the free spot of class `t` with the lowest index.
pub open spec fn is_first_free(s: Seq<ParkingSpot>, i: int, t: SpotType) -> bool {
    &&& is_free_of(s, i, t)
    &&& forall|j: int| 0 <= j < i ==> !is_free_of(s, j, t)
}

/// `new` is `old` with its first free spot of class `t` occupied.
pub open spec fn claims_first_free(old: Seq<ParkingSpot>, new: Seq<ParkingSpot>, t: SpotType) -> bool {
    exists|i: int| is_first_free(old, i, t) && new == occupy(old, i)
}

/// Spots `i`, `i + 1` and `i + 2` are free large spots.
pub open spec fn free_large_run(s: Seq<ParkingSpot>, i: int) -> bool {
    &&& is_free_of(s, i, SpotType::Large)
    &&& is_free_of(s, i + 1, SpotType::Large)
    &&& is_free_of(s, i + 2, SpotType::Large)
}

/// Somewhere three adjacent large spots are free.
pub open spec fn has_free_run(s: Seq<ParkingSpot>) -> bool {
    exists|i: int| free_large_run(s, i)
}

/// The run of three free large spots that starts at `i` is the first one.
pub open spec fn is_first_run(s: Seq<ParkingSpot>, i: int) -> bool {
    &&& free_large_run(s, i)
    &&& forall|j: int| 0 <= j < i ==> !free_large_run(s, j)
}

/// `new` is `old` with its first run of three free large spots occupied.
pub open spec fn claims_first_run(old: Seq<ParkingSpot>, new: Seq<ParkingSpot>) -> bool {
    exists|i: int| is_first_run(old, i) && new == occupy(occupy(occupy(old, i), i + 1), i + 2)
}

/// The outcome of parking in the first free spot of the first class in
/// `classes` that has one: success and that spot taken, or, when none of
/// them has room, failure and nothing changed.
pub open spec fn parks_by_preference(
    old: Seq<ParkingSpot>,
    new: Seq<ParkingSpot>,
    r: bool,
    classes: Seq<SpotType>,
) -> bool
    decreases classes.len(),
{
    if classes.len() == 0 {
        !r && new == old
    } else if has_free(old, classes[0]) {
        r && claims_first_free(old, new, classes[0])
    } else {
        parks_by_preference(old, new, r, classes.drop_first())
    }
}

/// The spot classes a single-spot vehicle may take, in the order tried.
pub open spec fn preference(v: VehicleType) -> Seq<SpotType> {
    match v {
        VehicleType::Motorcycle => seq![SpotType::Motorcycle, SpotType::Car, SpotType::Large],
        VehicleType::Car => seq![SpotType::Car, SpotType::Large],
        VehicleType::Van => seq![],
    }
}

/// A fixed row of parking spots with the number of spots, and of occupied
/// spots, of each class.
pub struct ParkingLot {
    spots: Vec<ParkingSpot>,
    total_spots: SpotCounts,
    occupied_spots: SpotCounts,
}

impl View for ParkingLot {
    type V = Seq<ParkingSpot>;

    closed spec fn view(&self) -> Seq<ParkingSpot> {
        self.spots@
    }
}

impl ParkingLot {
    /// The counters agree with the row of spots.
    pub closed spec fn wf(&self) -> bool {
        &&& forall|t: SpotType| #[trigger] self.total_spots.of(t) == count_class(self.spots@, t)
        &&& forall|t: SpotType| #[trigger]
            self.occupied_spots.of(t) == count_occupied_class(self.spots@, t)
    }

    /// Number of spots of class `t`, as the lot counts them.
    pub closed spec fn total_of(&self, t: SpotType) -> nat {
        self.total_spots.of(t)
    }

    /// Number of occupied spots of class `t`, as the lot counts them.
    pub closed spec fn occupied_of(&self, t: SpotType) -> nat {
        self.occupied_spots.of(t)
    }

    /// The counters of a well-formed lot are the counts over its row.
    pub proof fn lemma_wf_counts(&self, t: SpotType)
        requires
            self.wf(),
        ensures
            self.total_of(t) == count_class(self@, t),
            self.occupied_of(t) == count_occupied_class(self@, t),
    {
    }

    /// Builds a lot of `motorcycle_spots` motorcycle spots, then `car_spots`
    /// car spots, then `large_spots` large spots, all free.
    pub fn new(motorcycle_spots: usize, car_spots: usize, large_spots: usize) -> (r: Self)
        requires
            motorcycle_spots + car_spots + large_spots <= usize::MAX,
        ensures
            r.wf(),
            r@ == fresh_spots(motorcycle_spots as nat, car_spots as nat, large_spots as nat),
            r.total_of(SpotType::Motorcycle) == motorcycle_spots,
            r.total_of(SpotType::Car) == car_spots,
            r.total_of(SpotType::Large) == large_spots,
            forall|t: SpotType| r.occupied_of(t) == 0,
    {
        let ghost m = motorcycle_spots as nat;
        let ghost c = car_spots as nat;
        let ghost l = large_spots as nat;
        let mut spots: Vec<ParkingSpot> = Vec::new();
        for i in 0..motorcycle_spots
            invariant
                spots@ =~= fresh_spots(m, c, l).take(i as int),
                m + c + l <= usize::MAX,
                m == motorcycle_spots,
                forall|t: SpotType| #[trigger]
                    count_class(spots@, t) == if t == SpotType::Motorcycle {
                        i as nat
                    } else {
                        0
                    },
                forall|t: SpotType| #[trigger] count_occupied_class(spots@, t) == 0,
        {
            let x = ParkingSpot { spot_type: SpotType::Motorcycle, is_occupied: false };
            proof {
                lemma_push_free(spots@, x);
            }
            spots.push(x);
        }
        for i in 0..car_spots
            invariant
                spots@ =~= fresh_spots(m, c, l).take(m + i),
                m + c + l <= usize::MAX,
                m == motorcycle_spots,
                c == car_spots,
                forall|t: SpotType| #[trigger]
                    count_class(spots@, t) == if t == SpotType::Motorcycle {
                        m
                    } else if t == SpotType::Car {
                        i as nat
                    } else {
                        0
                    },
                forall|t: SpotType| #[trigger] count_occupied_class(spots@, t) == 0,
        {
            let x = ParkingSpot { spot_type: SpotType::Car, is_occupied: false };
            proof {
                lemma_push_free(spots@, x);
            }
            spots.push(x);
        }
        for i in 0..large_spots
            invariant
                spots@ =~= fresh_spots(m, c, l).take(m + c + i),
                m + c + l <= usize::MAX,
                m == motorcycle_spots,
                c == car_spots,
                l == large_spots,
                forall|t: SpotType| #[trigger]
                    count_class(spots@, t) == if t == SpotType::Motorcycle {
                        m
                    } else if t == SpotType::Car {
                        c
                    } else {
                        i as nat
                    },
                forall|t: SpotType| #[trigger] count_occupied_class(spots@, t) == 0,
        {
            let x = ParkingSpot { spot_type: SpotType::Large, is_occupied: false };
            proof {
                lemma_push_free(spots@, x);
            }
            spots.push(x);
        }
        assert(spots@ =~= fresh_spots(m, c, l));
        let lot = ParkingLot {
            spots,
            total_spots: SpotCounts { motorcycle: motorcycle_spots, car: car_spots, large: large_spots },
            occupied_spots: SpotCounts { motorcycle: 0, car: 0, large: 0 },
        };
        lot
    }

    /// Parks a van on the first three adjacent free large spots, scanning
    /// the row in order. Returns false, changing nothing, when there is no
    /// such run.
    pub fn park_van(&mut self) -> (r: bool)
        requires
            old(self).wf(),
        ensures
            final(self).wf(),
            r == has_free_run(old(self)@),
            r ==> claims_first_run(old(self)@, final(self)@),
            !r ==> final(self)@ == old(self)@,
    {
        let n = self.spots.len();
        let mut run: usize = 0;
        let mut i: usize = 0;
        while i < n
            invariant
                self.wf(),
                self.spots@ == old(self).spots@,
                n == self.spots@.len(),
                i <= n,
                run <= i,
                run < 3,
                forall|j: int| i - run <= j < i ==> is_free_of(self.spots@, j, SpotType::Large),
                run < i ==> !is_free_of(self.spots@, i - run - 1, SpotType::Large),
                forall|k: int| 0 <= k && k + 2 < i ==> !free_large_run(self.spots@, k),
            decreases n - i,
        {
            let spot = self.spots[i];
            if !spot.is_occupied && spot.spot_type == SpotType::Large {
                run = run + 1;
                if run == 3 {
                    let ghost s0 = self.spots@;
                    let start = i - 2;
                    assert(is_first_run(s0, start as int));
                    let taken = ParkingSpot { spot_type: SpotType::Large, is_occupied: true };
                    proof {
                        lemma_occupy_counts(s0, start as int);
                        lemma_occupy_counts(occupy(s0, start as int), start + 1);
                        lemma_occupy_counts(occupy(occupy(s0, start as int), start + 1), start + 2);
                    }
                    self.spots.set(start, taken);
                    self.spots.set(start + 1, taken);
                    self.spots.set(i, taken);
                    assert(self.spots@ =~= occupy(
                        occupy(occupy(s0, start as int), start + 1),
                        start + 2,
                    ));
                    proof {
                        lemma_count_le_len(self.spots@, occupied_of_type(SpotType::Large));
                        let s1 = occupy(s0, start as int);
                        let s2 = occupy(s1, start + 1);
                        let large = SpotType::Large;
                        assert(count_occupied_class(s1, large) == count_occupied_class(s0, large) + 1);
                        assert(count_occupied_class(s2, large) == count_occupied_class(s1, large) + 1);
                        assert(count_occupied_class(self.spots@, large) == count_occupied_class(
                            s2,
                            large,
                        ) + 1);
                    }
                    self.occupied_spots.add(SpotType::Large, 3);
                    return true;
                }
            } else {
                run = 0;
            }
            i = i + 1;
        }
        false
    }

    /// Parks in the free spot of class `spot_type` with the lowest index. Returns
    /// false, changing nothing, when no spot of that class is free.
    pub fn park_in_first_available(&mut self, spot_type: SpotType) -> (r: bool)
        requires
            old(self).wf(),
        ensures
            final(self).wf(),
            r == has_free(old(self)@, spot_type),
            r ==> claims_first_free(old(self)@, final(self)@, spot_type),
            !r ==> final(self)@ == old(self)@,
    {
        let n = self.spots.len();
        let mut i: usize = 0;
        while i < n
            invariant
                self.wf(),
                self.spots@ == old(self).spots@,
                n == self.spots@.len(),
                i <= n,
                forall|j: int| 0 <= j < i ==> !is_free_of(self.spots@, j, spot_type),
            decreases n - i,
        {
            let spot = self.spots[i];
            if !spot.is_occupied && spot.spot_type == spot_type {
                let ghost s0 = self.spots@;
                assert(is_first_free(s0, i as int, spot_type));
                proof {
                    lemma_occupy_counts(s0, i as int);
                    lemma_count_le_len(occupy(s0, i as int), occupied_of_type(spot_type));
                    assert(count_occupied_class(occupy(s0, i as int), spot_type)
                        == count_occupied_class(s0, spot_type) + 1);
                }
                self.spots.set(i, ParkingSpot { spot_type, is_occupied: true });
                assert(self.spots@ =~= occupy(s0, i as int));
                self.occupied_spots.add(spot_type, 1);
                return true;
            }
            i = i + 1;
        }
        false
    }

    /// Parks one vehicle. A motorcycle takes the first free motorcycle spot,
    /// else the first free car spot, else the first free large spot; a car
    /// takes the first free car spot, else the first free large spot; a van
    /// takes the first run of three adjacent free large spots. Returns false,
    /// changing nothing, when the vehicle finds no room.
    pub fn park_vehicle(&mut self, vehicle: VehicleType) -> (r: bool)
        requires
            old(self).wf(),
        ensures
            final(self).wf(),
            vehicle != VehicleType::Van ==> parks_by_preference(
                old(self)@,
                final(self)@,
                r,
                preference(vehicle),
            ),
            vehicle == VehicleType::Van ==> {
                &&& r == has_free_run(old(self)@)
                &&& r ==> claims_first_run(old(self)@, final(self)@)
                &&& !r ==> final(self)@ == old(self)@
            },
    {
        proof {
            reveal_with_fuel(parks_by_preference, 4);
        }
        match vehicle {
            VehicleType::Motorcycle => {
                let ghost p = preference(vehicle);
                assert(p[0] == SpotType::Motorcycle);
                assert(p.drop_first() =~= seq![SpotType::Car, SpotType::Large]);
                assert(p.drop_first().drop_first() =~= seq![SpotType::Large]);
                assert(p.drop_first().drop_first().drop_first() =~= Seq::<SpotType>::empty());
                if self.park_in_first_available(SpotType::Motorcycle) {
                    true
                } else if self.park_in_first_available(SpotType::Car) {
                    true
                } else {
                    self.park_in_first_available(SpotType::Large)
                }
            },
            VehicleType::Car => {
                let ghost p = preference(vehicle);
                assert(p[0] == SpotType::Car);
                assert(p.drop_first() =~= seq![SpotType::Large]);
                assert(p.drop_first().drop_first() =~= Seq::<SpotType>::empty());
                if self.park_in_first_available(SpotType::Car) {
                    true
                } else {
                    self.park_in_first_available(SpotType::Large)
                }
            },
            VehicleType::Van => self.park_van(),
        }
    }

    /// Number of free spots: all spots less the occupied ones.
    pub fn remaining_spots(&self) -> (r: usize)
        requires
            self.wf(),
        ensures
            r == remaining_of(self@),
    {
        let n = self.spots.len();
        proof {
            lemma_occupied_by_class(self.spots@);
            lemma_count_le_len(self.spots@, occupied());
            self.lemma_wf_counts(SpotType::Motorcycle);
            self.lemma_wf_counts(SpotType::Car);
            self.lemma_wf_counts(SpotType::Large);
        }
        let occupied_now = self.occupied_spots.motorcycle + self.occupied_spots.car
            + self.occupied_spots.large;
        n - occupied_now
    }

    /// Whether no spot is free.
    pub fn is_full(&self) -> (r: bool)
        requires
            self.wf(),
        ensures
            r == (remaining_of(self@) == 0),
    {
        self.remaining_spots() == 0
    }

    /// Whether no spot is occupied.
    pub fn is_empty(&self) -> (r: bool)
        ensures
            r == all_free(self@),
    {
        let n = self.spots.len();
        let mut i: usize = 0;
        while i < n
            invariant
                n == self.spots@.len(),
                i <= n,
                forall|j: int| 0 <= j < i ==> !(#[trigger] self.spots@[j]).is_occupied,
            decreases n - i,
        {
            if self.spots[i].is_occupied {
                return false;
            }
            i = i + 1;
        }
        true
    }

    /// Number of spots of each class.
    pub fn total_spots(&self) -> (r: SpotCounts)
        requires
            self.wf(),
        ensures
            forall|t: SpotType| #[trigger] r.of(t) == count_class(self@, t),
    {
        self.total_spots
    }

    /// Number of occupied spots of each class.
    pub fn occupied_spots(&self) -> (r: SpotCounts)
        requires
            self.wf(),
        ensures
            forall|t: SpotType| #[trigger] r.of(t) == count_occupied_class(self@, t),
    {
        self.occupied_spots
    }

    /// The row of spots, in index order.
    pub fn spots(&self) -> (r: &Vec<ParkingSpot>)
        ensures
            r@ == self@,
    {
        &self.spots
    }
}

} // verus!
