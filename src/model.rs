//! Hotels, their price tables, and the price of a stay.
use vstd::prelude::*;

verus! {

/// A day of the week, as annotated on each date of a booking.
#[derive(Clone, Copy, Debug, PartialEq, Eq, Structural)]
pub enum Weekday {
    Monday,
    Tuesday,
    Wednesday,
    Thursday,
    Friday,
    Saturday,
    Sunday,
}

impl Weekday {
    /// Saturday and Sunday are charged at the weekend price.
    pub open spec fn is_weekend(self) -> bool {
        self == Weekday::Saturday || self == Weekday::Sunday
    }
}

/// The loyalty tier of a customer, which picks a hotel's price table.
#[derive(Clone, Copy, Debug, PartialEq, Eq, Structural)]
pub enum CustomerKind {
    Rewards,
    Regular,
}

/// One day of a stay. Only the weekday takes part in pricing; day, month and
/// year are kept as they were written, without calendar checks.
#[derive(Clone, Copy, Debug, PartialEq, Eq, Structural)]
pub struct Date {
    pub day: u8,
    pub month: u8,
    pub year: u16,
    pub weekday: Weekday,
}

/// The nightly prices of one price table.
#[derive(Clone, Copy, Debug, PartialEq, Eq, Structural)]
pub struct Rate {
    pub weekday: u32,
    pub weekend: u32,
}

/// A hotel's price tables, one for each customer tier.
#[derive(Clone, Copy, Debug, PartialEq, Eq, Structural)]
pub struct RatePerCustomer {
    pub regular: Rate,
    pub rewards: Rate,
}

/// A hotel of the database.
#[derive(Clone, Debug)]
pub struct Hotel {
    pub name: String,
    pub rating: u32,
    pub rates: RatePerCustomer,
}

/// The hotels in the order in which they were listed.
#[derive(Clone, Debug)]
pub struct HotelDb(pub Vec<Hotel>);

/// The price of one night under `rate` on a day `day`.
pub open spec fn night_price(rate: Rate, day: Weekday) -> nat {
    if day.is_weekend() {
        rate.weekend as nat
    } else {
        rate.weekday as nat
    }
}

/// The price table that applies to `customer`.
pub open spec fn table_for(rates: RatePerCustomer, customer: CustomerKind) -> Rate {
    match customer {
        CustomerKind::Regular => rates.regular,
        CustomerKind::Rewards => rates.rewards,
    }
}

/// The exact price of a stay on `dates` at a hotel with the tables `rates`:
/// the sum of the nightly price of every date.
pub open spec fn stay_price(rates: RatePerCustomer, customer: CustomerKind, dates: Seq<Date>) -> nat
    decreases dates.len(),
{
    if dates.len() == 0 {
        0
    } else {
        stay_price(rates, customer, dates.drop_last()) + night_price(
            table_for(rates, customer),
            dates.last().weekday,
        )
    }
}

/// The price of a stay as a `u32`, or `None` where it does not fit.
pub open spec fn checked_price(rates: RatePerCustomer, customer: CustomerKind, dates: Seq<Date>) -> Option<u32> {
    let p = stay_price(rates, customer, dates);
    if p <= u32::MAX {
        Some(p as u32)
    } else {
        None
    }
}

/// A longer stay never costs less than one of its prefixes.
pub proof fn lemma_price_grows(rates: RatePerCustomer, customer: CustomerKind, dates: Seq<Date>, i: int)
    requires
        0 <= i <= dates.len(),
    ensures
        stay_price(rates, customer, dates.subrange(0, i)) <= stay_price(rates, customer, dates),
    decreases dates.len(),
{
    if i < dates.len() {
        lemma_price_grows(rates, customer, dates.drop_last(), i);
        assert(dates.drop_last().subrange(0, i) =~= dates.subrange(0, i));
    } else {
        assert(dates.subrange(0, i) =~= dates);
    }
}

/// A stay on weekdays only costs the weekday price once per night.
pub proof fn lemma_weekday_stay(rates: RatePerCustomer, customer: CustomerKind, dates: Seq<Date>)
    requires
        forall|k: int| 0 <= k < dates.len() ==> !(#[trigger] dates[k]).weekday.is_weekend(),
    ensures
        stay_price(rates, customer, dates) == dates.len() * table_for(rates, customer).weekday,
    decreases dates.len(),
{
    if dates.len() > 0 {
        let w = table_for(rates, customer).weekday as int;
        let n = dates.len() as int;
        assert(dates.last() == dates[n - 1]);
        lemma_weekday_stay(rates, customer, dates.drop_last());
        assert((n - 1) * w + w == n * w) by (nonlinear_arith);
    }
}

/// A stay on weekends only costs the weekend price once per night.
pub proof fn lemma_weekend_stay(rates: RatePerCustomer, customer: CustomerKind, dates: Seq<Date>)
    requires
        forall|k: int| 0 <= k < dates.len() ==> (#[trigger] dates[k]).weekday.is_weekend(),
    ensures
        stay_price(rates, customer, dates) == dates.len() * table_for(rates, customer).weekend,
    decreases dates.len(),
{
    if dates.len() > 0 {
        let w = table_for(rates, customer).weekend as int;
        let n = dates.len() as int;
        assert(dates.last() == dates[n - 1]);
        lemma_weekend_stay(rates, customer, dates.drop_last());
        assert((n - 1) * w + w == n * w) by (nonlinear_arith);
    }
}

/// The price of a stay is the price of its first part plus the price of the
/// rest: every night is charged on its own.
pub proof fn lemma_stay_splits(
    rates: RatePerCustomer,
    customer: CustomerKind,
    first: Seq<Date>,
    rest: Seq<Date>,
)
    ensures
        stay_price(rates, customer, first + rest) == stay_price(rates, customer, first)
            + stay_price(rates, customer, rest),
    decreases rest.len(),
{
    if rest.len() == 0 {
        assert(first + rest =~= first);
    } else {
        assert((first + rest).drop_last() =~= first + rest.drop_last());
        assert((first + rest).last() == rest.last());
        lemma_stay_splits(rates, customer, first, rest.drop_last());
    }
}

impl Rate {
    /// The nightly price for `day`: weekend price on Saturday and Sunday,
    /// weekday price otherwise.
    pub fn matching(&self, day: Weekday) -> (r: u32)
        ensures
            r as nat == night_price(*self, day),
    {
        match day {
            Weekday::Monday | Weekday::Tuesday | Weekday::Wednesday | Weekday::Thursday
            | Weekday::Friday => self.weekday,
            Weekday::Saturday | Weekday::Sunday => self.weekend,
        }
    }
}

impl RatePerCustomer {
    /// The price table for `customer`.
    pub fn matching(&self, customer: CustomerKind) -> (r: &Rate)
        ensures
            *r == table_for(*self, customer),
    {
        match customer {
            CustomerKind::Regular => &self.regular,
            CustomerKind::Rewards => &self.rewards,
        }
    }
}

impl Hotel {
    /// The total price of a stay on `dates` for `customer`, or `None` where
    /// that total does not fit in a `u32`.
    pub fn rate(&self, customer: CustomerKind, dates: &[Date]) -> (r: Option<u32>)
        ensures
            r == checked_price(self.rates, customer, dates@),
    {
        let table = self.rates.matching(customer);
        let mut total: u32 = 0;
        let mut i: usize = 0;
        while i < dates.len()
            invariant
                0 <= i <= dates@.len(),
                *table == table_for(self.rates, customer),
                total as nat == stay_price(self.rates, customer, dates@.subrange(0, i as int)),
            decreases dates.len() - i,
        {
            proof {
                assert(dates@.subrange(0, i + 1).drop_last() =~= dates@.subrange(0, i as int));
            }
            let night = table.matching(dates[i].weekday);
            match total.checked_add(night) {
                Some(t) => {
                    total = t;
                },
                None => {
                    proof {
                        lemma_price_grows(self.rates, customer, dates@, i + 1);
                    }
                    return None;
                },
            }
            i = i + 1;
        }
        proof {
            assert(dates@.subrange(0, i as int) =~= dates@);
        }
        Some(total)
    }
}

} // verus!
