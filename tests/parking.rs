use car_park::{ParkingLot, ParkingSpot, SpotCounts, SpotType, VehicleType};

fn occupied_indices(lot: &ParkingLot) -> Vec<usize> {
    let mut out = Vec::new();
    for (i, spot) in lot.spots().iter().enumerate() {
        if spot.is_occupied {
            out.push(i);
        }
    }
    out
}

#[test]
fn new_lot_lays_out_classes_in_order() {
    let lot = ParkingLot::new(2, 1, 3);
    let kinds: Vec<SpotType> = lot.spots().iter().map(|s| s.spot_type).collect();
    assert_eq!(
        kinds,
        vec![
            SpotType::Motorcycle,
            SpotType::Motorcycle,
            SpotType::Car,
            SpotType::Large,
            SpotType::Large,
            SpotType::Large,
        ]
    );
    assert!(lot.spots().iter().all(|s| !s.is_occupied));
}

#[test]
fn new_lot_counts_capacity() {
    for &(m, c, l) in &[(0usize, 0usize, 0usize), (1, 0, 0), (0, 4, 0), (3, 2, 7), (5, 10, 3)] {
        let lot = ParkingLot::new(m, c, l);
        assert_eq!(lot.remaining_spots(), m + c + l);
        assert!(lot.is_empty());
        assert_eq!(lot.is_full(), m + c + l == 0);
        assert_eq!(lot.occupied_spots(), SpotCounts { motorcycle: 0, car: 0, large: 0 });
    }
}

#[test]
fn empty_lot_is_full_and_empty() {
    let mut lot = ParkingLot::new(0, 0, 0);
    assert!(lot.is_full());
    assert!(lot.is_empty());
    assert_eq!(lot.remaining_spots(), 0);
    assert!(!lot.park_vehicle(VehicleType::Motorcycle));
    assert!(!lot.park_vehicle(VehicleType::Car));
    assert!(!lot.park_vehicle(VehicleType::Van));
}

#[test]
fn motorcycle_takes_lowest_free_small_spot() {
    let mut lot = ParkingLot::new(3, 0, 0);
    assert!(lot.park_in_first_available(SpotType::Motorcycle));
    assert_eq!(lot.remaining_spots(), 2);
    assert!(lot.park_vehicle(VehicleType::Motorcycle));
    assert_eq!(lot.remaining_spots(), 1);
    assert_eq!(occupied_indices(&lot), vec![0, 1]);
    assert_eq!(lot.occupied_spots().get(SpotType::Motorcycle), 2);
}

#[test]
fn motorcycle_falls_back_to_car_then_large() {
    let mut lot = ParkingLot::new(1, 1, 1);
    assert!(lot.park_vehicle(VehicleType::Motorcycle));
    assert!(lot.park_vehicle(VehicleType::Motorcycle));
    assert_eq!(occupied_indices(&lot), vec![0, 1]);
    assert!(lot.park_vehicle(VehicleType::Motorcycle));
    assert_eq!(occupied_indices(&lot), vec![0, 1, 2]);
    assert!(lot.is_full());
    assert!(!lot.park_vehicle(VehicleType::Motorcycle));
    assert_eq!(lot.occupied_spots(), SpotCounts { motorcycle: 1, car: 1, large: 1 });
}

#[test]
fn car_never_takes_small_spot() {
    let mut lot = ParkingLot::new(4, 0, 0);
    assert!(!lot.park_vehicle(VehicleType::Car));
    assert!(lot.is_empty());
    assert_eq!(lot.remaining_spots(), 4);

    let mut lot = ParkingLot::new(2, 1, 1);
    assert!(lot.park_vehicle(VehicleType::Car));
    assert_eq!(occupied_indices(&lot), vec![2]);
    assert!(lot.park_vehicle(VehicleType::Car));
    assert_eq!(occupied_indices(&lot), vec![2, 3]);
    assert!(!lot.park_vehicle(VehicleType::Car));
    assert_eq!(lot.remaining_spots(), 2);
    assert_eq!(occupied_indices(&lot), vec![2, 3]);
}

#[test]
fn park_in_first_available_reports_missing_class() {
    let mut lot = ParkingLot::new(0, 2, 0);
    assert!(!lot.park_in_first_available(SpotType::Large));
    assert!(!lot.park_in_first_available(SpotType::Motorcycle));
    assert!(lot.is_empty());
    assert!(lot.park_in_first_available(SpotType::Car));
    assert_eq!(occupied_indices(&lot), vec![0]);
}

#[test]
fn van_takes_first_run_of_three_large() {
    let mut lot = ParkingLot::new(0, 1, 7);
    assert!(lot.park_van());
    assert_eq!(occupied_indices(&lot), vec![1, 2, 3]);
    assert!(lot.park_vehicle(VehicleType::Van));
    assert_eq!(occupied_indices(&lot), vec![1, 2, 3, 4, 5, 6]);
    assert!(!lot.park_vehicle(VehicleType::Van));
    assert_eq!(lot.remaining_spots(), 2);
    assert_eq!(lot.occupied_spots().get(SpotType::Large), 6);
}

#[test]
fn van_takes_run_after_taken_spots() {
    // Motorcycles with no smaller spot fall back to the large spots 0, 1, 2.
    let mut lot = ParkingLot::new(0, 0, 6);
    assert!(lot.park_vehicle(VehicleType::Motorcycle));
    assert!(lot.park_vehicle(VehicleType::Motorcycle));
    assert!(lot.park_vehicle(VehicleType::Motorcycle));
    assert!(lot.park_van());
    assert_eq!(occupied_indices(&lot), vec![0, 1, 2, 3, 4, 5]);
}

#[test]
fn van_fails_with_fewer_than_three_free_large() {
    let mut lot = ParkingLot::new(0, 0, 4);
    assert!(lot.park_vehicle(VehicleType::Car));
    assert!(lot.park_vehicle(VehicleType::Car));
    assert!(lot.park_vehicle(VehicleType::Car));
    assert_eq!(occupied_indices(&lot), vec![0, 1, 2]);
    assert!(!lot.park_vehicle(VehicleType::Van));
    assert_eq!(occupied_indices(&lot), vec![0, 1, 2]);
}

#[test]
fn van_needs_a_full_run_of_three() {
    let mut lot = ParkingLot::new(0, 0, 5);
    assert!(lot.park_in_first_available(SpotType::Large));
    assert!(lot.park_in_first_available(SpotType::Large));
    assert!(lot.park_in_first_available(SpotType::Large));
    assert_eq!(occupied_indices(&lot), vec![0, 1, 2]);
    assert!(!lot.park_van());
    assert_eq!(lot.remaining_spots(), 2);
}

#[test]
fn van_needs_large_spots_only() {
    let mut lot = ParkingLot::new(3, 3, 2);
    assert!(!lot.park_vehicle(VehicleType::Van));
    assert!(lot.is_empty());
    assert_eq!(lot.remaining_spots(), 8);
}

#[test]
fn queries_are_stable_between_parks() {
    let mut lot = ParkingLot::new(1, 1, 0);
    assert!(lot.park_vehicle(VehicleType::Car));
    let r = lot.remaining_spots();
    let f = lot.is_full();
    let e = lot.is_empty();
    for _ in 0..3 {
        assert_eq!(lot.remaining_spots(), r);
        assert_eq!(lot.is_full(), f);
        assert_eq!(lot.is_empty(), e);
    }
    assert_eq!((r, f, e), (1, false, false));
}

#[test]
fn demonstration_scenario() {
    let mut lot = ParkingLot::new(5, 10, 3);
    assert_eq!(lot.total_spots(), SpotCounts { motorcycle: 5, car: 10, large: 3 });
    assert_eq!(lot.total_spots().get(SpotType::Car), 10);
    assert!(lot.is_empty());
    assert!(lot.park_vehicle(VehicleType::Motorcycle));
    assert_eq!(occupied_indices(&lot), vec![0]);
    assert!(lot.park_vehicle(VehicleType::Car));
    assert_eq!(occupied_indices(&lot), vec![0, 5]);
    assert!(lot.park_vehicle(VehicleType::Van));
    assert_eq!(occupied_indices(&lot), vec![0, 5, 15, 16, 17]);
    assert_eq!(lot.remaining_spots(), 13);
    assert!(!lot.is_full());
    assert!(!lot.is_empty());
    assert_eq!(lot.occupied_spots(), SpotCounts { motorcycle: 1, car: 1, large: 3 });
}

#[test]
fn exhaustion_scenario() {
    let mut lot = ParkingLot::new(0, 0, 2);
    assert!(!lot.park_vehicle(VehicleType::Van));
    assert!(lot.is_empty());
    assert_eq!(lot.remaining_spots(), 2);
    assert!(!lot.is_full());
    assert_eq!(
        lot.spots().clone(),
        vec![ParkingSpot { spot_type: SpotType::Large, is_occupied: false }; 2]
    );
}

#[test]
fn spot_counts_add_and_get() {
    let mut c = SpotCounts { motorcycle: 1, car: 2, large: 3 };
    c.add(SpotType::Car, 4);
    assert_eq!(c.get(SpotType::Motorcycle), 1);
    assert_eq!(c.get(SpotType::Car), 6);
    assert_eq!(c.get(SpotType::Large), 3);
}
