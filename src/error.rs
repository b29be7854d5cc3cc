//! What can go wrong with a booking line, with the text at fault.
//!
//! The error types are generic over the text they hold: a `String` in
//! executable code and a `Seq<char>` in specifications, where `view` maps the
//! one to the other.
use vstd::prelude::*;

verus! {

/// Why one date token could not be read.
#[derive(Clone, Debug, PartialEq, Eq)]
pub enum DateFault<T> {
    /// The token is shorter than the fixed layout allows.
    TooShort,
    /// The two characters of the day, which are not both digits.
    InvalidDay(T),
    /// The three characters of the month, which name no month.
    UnknownMonth(T),
    /// The four characters of the year, which are not all digits.
    InvalidYear(T),
    /// No `)` follows the year.
    MissingClosingBracket,
    /// The text between the brackets, which names no weekday.
    InvalidWeekday(T),
}

/// Why a booking line could not be read.
#[derive(Clone, Debug, PartialEq, Eq)]
pub enum ParseError<T> {
    /// The whole line, too short to hold the customer tier.
    MissingCustomerKind(T),
    /// The tier prefix of the line, which is neither of the two tiers.
    UnknownCustomerKind(T),
    /// The date token at fault, and what is wrong with it.
    InvalidDate(T, DateFault<T>),
}

/// Why no hotel could be picked for a booking line.
#[derive(Clone, Debug, PartialEq, Eq)]
pub enum BookingError<T> {
    /// The line, which could not be read, and what is wrong with it.
    Parse(T, ParseError<T>),
    /// The database holds no hotel; holds the line.
    NoHotels(T),
    /// The price of the stay at some hotel does not fit in a `u32`; holds the line.
    PriceOverflow(T),
}

impl View for DateFault<String> {
    type V = DateFault<Seq<char>>;

    open spec fn view(&self) -> DateFault<Seq<char>> {
        match self {
            DateFault::TooShort => DateFault::TooShort,
            DateFault::InvalidDay(s) => DateFault::InvalidDay(s@),
            DateFault::UnknownMonth(s) => DateFault::UnknownMonth(s@),
            DateFault::InvalidYear(s) => DateFault::InvalidYear(s@),
            DateFault::MissingClosingBracket => DateFault::MissingClosingBracket,
            DateFault::InvalidWeekday(s) => DateFault::InvalidWeekday(s@),
        }
    }
}

impl View for ParseError<String> {
    type V = ParseError<Seq<char>>;

    open spec fn view(&self) -> ParseError<Seq<char>> {
        match self {
            ParseError::MissingCustomerKind(s) => ParseError::MissingCustomerKind(s@),
            ParseError::UnknownCustomerKind(s) => ParseError::UnknownCustomerKind(s@),
            ParseError::InvalidDate(s, f) => ParseError::InvalidDate(s@, f@),
        }
    }
}

impl View for BookingError<String> {
    type V = BookingError<Seq<char>>;

    open spec fn view(&self) -> BookingError<Seq<char>> {
        match self {
            BookingError::Parse(l, e) => BookingError::Parse(l@, e@),
            BookingError::NoHotels(s) => BookingError::NoHotels(s@),
            BookingError::PriceOverflow(s) => BookingError::PriceOverflow(s@),
        }
    }
}

/// A result with its error seen through `view`.
pub open spec fn viewed<A, E: View>(r: Result<A, E>) -> Result<A, E::V> {
    match r {
        Ok(a) => Ok(a),
        Err(e) => Err(e@),
    }
}

} // verus!
