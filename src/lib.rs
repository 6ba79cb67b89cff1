//! A fixed-capacity parking lot that assigns spots to arriving vehicles by
//! size class and reports how full it is.

pub mod spot;
pub mod lot;
pub mod laws;

pub use lot::ParkingLot;
pub use spot::{ParkingSpot, SpotCounts, SpotType, VehicleType};
