//! Laws that relate construction, parking and the capacity queries.

use vstd::prelude::*;
use crate::lot::{
    all_free, claims_first_free, fresh_spots, has_free, is_first_free, parks_by_preference,
    preference, remaining_of,
};
use crate::spot::{
    lemma_count_none, lemma_occupy_counts, occupied, occupy,
    ParkingSpot, SpotType, VehicleType,
};

verus! {

/// A new lot has every spot free: as many remaining spots as spots of all
/// classes together, it is empty, and it is full only when it has no spots.
pub proof fn law_fresh_lot(m: nat, c: nat, l: nat)
    ensures
        remaining_of(fresh_spots(m, c, l)) == m + c + l,
        all_free(fresh_spots(m, c, l)),
        (remaining_of(fresh_spots(m, c, l)) == 0) == (m + c + l == 0),
{
    let s = fresh_spots(m, c, l);
    assert forall|j: int| 0 <= j < s.len() implies !occupied()(#[trigger] s[j]) by {}
    lemma_count_none(s, occupied());
}

/// While a motorcycle spot is free, a motorcycle takes the free motorcycle
/// spot with the lowest index, and the lot has one free spot fewer.
pub proof fn law_motorcycle_takes_first_small(
    old: Seq<ParkingSpot>,
    new: Seq<ParkingSpot>,
    r: bool,
)
    requires
        has_free(old, SpotType::Motorcycle),
        parks_by_preference(old, new, r, preference(VehicleType::Motorcycle)),
    ensures
        r,
        claims_first_free(old, new, SpotType::Motorcycle),
        remaining_of(new) == remaining_of(old) - 1,
{
    assert(preference(VehicleType::Motorcycle)[0] == SpotType::Motorcycle);
    let i = choose|i: int| is_first_free(old, i, SpotType::Motorcycle) && new == occupy(old, i);
    lemma_occupy_counts(old, i);
}

/// A car never takes a motorcycle spot, and fails, changing nothing, when
/// no car or large spot is free.
pub proof fn law_car_never_takes_small(old: Seq<ParkingSpot>, new: Seq<ParkingSpot>, r: bool)
    requires
        parks_by_preference(old, new, r, preference(VehicleType::Car)),
    ensures
        new.len() == old.len(),
        forall|i: int|
            0 <= i < old.len() && old[i].spot_type == SpotType::Motorcycle ==> new[i] == old[i],
        !has_free(old, SpotType::Car) && !has_free(old, SpotType::Large) ==> !r && new == old,
{
    reveal_with_fuel(parks_by_preference, 3);
    let p = preference(VehicleType::Car);
    assert(p[0] == SpotType::Car);
    assert(p.drop_first() =~= seq![SpotType::Large]);
    assert(p.drop_first().drop_first() =~= Seq::<SpotType>::empty());
    if r {
        let t = if has_free(old, SpotType::Car) {
            SpotType::Car
        } else {
            SpotType::Large
        };
        assert(claims_first_free(old, new, t));
        let i = choose|i: int| is_first_free(old, i, t) && new == occupy(old, i);
        assert(old[i].spot_type != SpotType::Motorcycle);
    }
}

} // verus!
