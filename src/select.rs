//! Picking the hotel for a booking: cheapest first, better rated on equal
//! price, earliest listed on a full tie.
use vstd::prelude::*;
use crate::booking::{booking_parse, parse_booking};
use crate::error::BookingError;
use crate::model::{stay_price, CustomerKind, Date, Hotel, HotelDb};

verus! {

/// Why no hotel could be picked for a stay.
#[derive(Clone, Copy, Debug, PartialEq, Eq, Structural)]
pub enum SelectionError {
    /// The database holds no hotel.
    NoHotels,
    /// The price of the stay at some hotel does not fit in a `u32`.
    PriceOverflow,
}

/// The rating turned around, so that a smaller value is a better hotel.
pub open spec fn inverted_rating(rating: u32) -> nat {
    (u32::MAX - rating) as nat
}

/// The price of the stay on `dates` at hotel `h` for `customer`.
pub open spec fn price_at(h: Hotel, customer: CustomerKind, dates: Seq<Date>) -> nat {
    stay_price(h.rates, customer, dates)
}

/// Whether hotel `a` comes strictly before hotel `b` in the order of
/// (price, inverted rating), compared lexicographically.
pub open spec fn ranks_before(a: Hotel, b: Hotel, customer: CustomerKind, dates: Seq<Date>) -> bool {
    let (pa, pb) = (price_at(a, customer, dates), price_at(b, customer, dates));
    pa < pb || (pa == pb && inverted_rating(a.rating) < inverted_rating(b.rating))
}

/// Whether the price of the stay fits in a `u32` at every hotel.
pub open spec fn all_priced(hotels: Seq<Hotel>, customer: CustomerKind, dates: Seq<Date>) -> bool {
    forall|j: int| 0 <= j < hotels.len() ==> price_at(#[trigger] hotels[j], customer, dates) <= u32::MAX
}

/// Whether `i` is the hotel to pick: no hotel ranks before it, and every
/// hotel listed before it ranks after it.
pub open spec fn is_pick(hotels: Seq<Hotel>, customer: CustomerKind, dates: Seq<Date>, i: int) -> bool {
    &&& 0 <= i < hotels.len()
    &&& forall|j: int| 0 <= j < i ==> ranks_before(hotels[i], #[trigger] hotels[j], customer, dates)
    &&& forall|j: int|
        i < j < hotels.len() ==> !ranks_before(#[trigger] hotels[j], hotels[i], customer, dates)
}

/// The pick is unique: selecting twice for the same hotels and stay gives the
/// same hotel.
pub proof fn lemma_pick_unique(
    hotels: Seq<Hotel>,
    customer: CustomerKind,
    dates: Seq<Date>,
    i: int,
    j: int,
)
    requires
        is_pick(hotels, customer, dates, i),
        is_pick(hotels, customer, dates, j),
    ensures
        i == j,
{
    if i < j {
        assert(ranks_before(hotels[j], hotels[i], customer, dates));
    } else if j < i {
        assert(ranks_before(hotels[i], hotels[j], customer, dates));
    }
}

/// Among hotels with the same price for the stay, the pick has the highest
/// rating.
pub proof fn lemma_equal_price_prefers_rating(
    hotels: Seq<Hotel>,
    customer: CustomerKind,
    dates: Seq<Date>,
    i: int,
    j: int,
)
    requires
        is_pick(hotels, customer, dates, i),
        0 <= j < hotels.len(),
        price_at(hotels[j], customer, dates) == price_at(hotels[i], customer, dates),
    ensures
        hotels[j].rating <= hotels[i].rating,
{
    if j < i {
        assert(ranks_before(hotels[i], hotels[j], customer, dates));
    } else if i < j {
        assert(!ranks_before(hotels[j], hotels[i], customer, dates));
    }
}

/// Among hotels with the same price and the same rating, the pick is the one
/// listed first.
pub proof fn lemma_full_tie_prefers_first(
    hotels: Seq<Hotel>,
    customer: CustomerKind,
    dates: Seq<Date>,
    i: int,
    j: int,
)
    requires
        is_pick(hotels, customer, dates, i),
        0 <= j < hotels.len(),
        price_at(hotels[j], customer, dates) == price_at(hotels[i], customer, dates),
        hotels[j].rating == hotels[i].rating,
    ensures
        i <= j,
{
    if j < i {
        assert(ranks_before(hotels[i], hotels[j], customer, dates));
    }
}

impl HotelDb {
    /// The position of the hotel to pick for `customer` staying on `dates`:
    /// the lowest price, then the highest rating, then the first listed.
    pub fn select(&self, customer: CustomerKind, dates: &[Date]) -> (r: Result<usize, SelectionError>)
        ensures
            self.0@.len() == 0 ==> r == Err::<usize, SelectionError>(SelectionError::NoHotels),
            self.0@.len() > 0 && !all_priced(self.0@, customer, dates@) ==> r == Err::<
                usize,
                SelectionError,
            >(SelectionError::PriceOverflow),
            self.0@.len() > 0 && all_priced(self.0@, customer, dates@) ==> (r matches Ok(i)
                && is_pick(self.0@, customer, dates@, i as int)),
    {
        let hotels = &self.0;
        if hotels.len() == 0 {
            return Err(SelectionError::NoHotels);
        }
        let mut best: usize = 0;
        let mut best_price: u32 = 0;
        let mut best_gap: u32 = 0;
        let mut i: usize = 0;
        while i < hotels.len()
            invariant
                hotels@ == self.0@,
                hotels@.len() > 0,
                0 <= i <= hotels@.len(),
                i > 0 ==> best < i,
                i > 0 ==> best_price as nat == price_at(hotels@[best as int], customer, dates@),
                i > 0 ==> best_gap as nat == inverted_rating(hotels@[best as int].rating),
                forall|j: int| 0 <= j < i ==> price_at(#[trigger] hotels@[j], customer, dates@) <= u32::MAX,
                forall|j: int|
                    0 <= j < best ==> ranks_before(hotels@[best as int], #[trigger] hotels@[j], customer, dates@),
                forall|j: int|
                    best < j < i ==> !ranks_before(#[trigger] hotels@[j], hotels@[best as int], customer, dates@),
            decreases hotels.len() - i,
        {
            let h = &hotels[i];
            let price = match h.rate(customer, dates) {
                Some(p) => p,
                None => {
                    proof {
                        assert(price_at(hotels@[i as int], customer, dates@) > u32::MAX);
                    }
                    return Err(SelectionError::PriceOverflow);
                },
            };
            let gap = u32::MAX - h.rating;
            if i == 0 || price < best_price || (price == best_price && gap < best_gap) {
                best = i;
                best_price = price;
                best_gap = gap;
            }
            i = i + 1;
        }
        Ok(best)
    }

    /// The name of the hotel to pick for one booking line, or why there is
    /// none: the line cannot be read, the database is empty, or a price does
    /// not fit in a `u32`. Every error holds the line.
    pub fn answer(&self, line: &str) -> (r: Result<String, BookingError<String>>)
        ensures
            match booking_parse(line@) {
                Err(e) => r matches Err(e2) && e2@ == BookingError::Parse(line@, e),
                Ok((c, ds)) => if self.0@.len() == 0 {
                    r matches Err(e2) && e2@ == BookingError::NoHotels(line@)
                } else if !all_priced(self.0@, c, ds) {
                    r matches Err(e2) && e2@ == BookingError::PriceOverflow(line@)
                } else {
                    r matches Ok(name) && exists|i: int|
                        is_pick(self.0@, c, ds, i) && name@ == (#[trigger] self.0@[i]).name@
                },
            },
    {
        let (customer, dates) = match parse_booking(line) {
            Ok(b) => b,
            Err(e) => {
                return Err(BookingError::Parse(line.to_owned(), e));
            },
        };
        match self.select(customer, dates.as_slice()) {
            Ok(i) => Ok(self.0[i].name.clone()),
            Err(SelectionError::NoHotels) => Err(BookingError::NoHotels(line.to_owned())),
            Err(SelectionError::PriceOverflow) => Err(BookingError::PriceOverflow(line.to_owned())),
        }
    }
}

} // verus!
