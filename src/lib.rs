//! Picks, for a booking request, the cheapest hotel of a small database,
//! preferring the better rated hotel when prices are equal.
//!
//! A booking line reads `<Tier>: <Date1>, <Date2>, ...`, where the tier is
//! `Rewards` or `Regular` and each date is written `DDMonYYYY(weekday)`.
pub mod booking;
pub mod date;
pub mod error;
pub mod model;
pub mod select;
pub mod text;

pub use booking::parse_booking;
pub use date::month_from;
pub use error::{BookingError, DateFault, ParseError};
pub use model::{CustomerKind, Date, Hotel, HotelDb, Rate, RatePerCustomer, Weekday};
pub use select::SelectionError;
