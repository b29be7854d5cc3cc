use hotel_reservations::{
    parse_booking, BookingError, CustomerKind, DateFault, Date, Hotel, HotelDb, ParseError, Rate,
    RatePerCustomer, SelectionError, Weekday,
};

fn hotel(name: &str, rating: u32, regular: (u32, u32), rewards: (u32, u32)) -> Hotel {
    Hotel {
        name: name.to_string(),
        rating,
        rates: RatePerCustomer {
            regular: Rate { weekday: regular.0, weekend: regular.1 },
            rewards: Rate { weekday: rewards.0, weekend: rewards.1 },
        },
    }
}

fn day(weekday: Weekday) -> Date {
    Date { day: 1, month: 1, year: 2009, weekday }
}

fn sample_db() -> HotelDb {
    HotelDb(vec![
        hotel("Lakewood", 3, (110, 90), (80, 80)),
        hotel("Bridgewood", 4, (160, 60), (110, 50)),
        hotel("Ridgewood", 5, (220, 150), (100, 40)),
    ])
}

#[test]
fn rate_matching_by_day() {
    let r = Rate { weekday: 110, weekend: 90 };
    assert_eq!(r.matching(Weekday::Monday), 110);
    assert_eq!(r.matching(Weekday::Friday), 110);
    assert_eq!(r.matching(Weekday::Saturday), 90);
    assert_eq!(r.matching(Weekday::Sunday), 90);
}

#[test]
fn rate_table_by_customer() {
    let h = hotel("Lakewood", 3, (110, 90), (80, 70));
    assert_eq!(*h.rates.matching(CustomerKind::Regular), Rate { weekday: 110, weekend: 90 });
    assert_eq!(*h.rates.matching(CustomerKind::Rewards), Rate { weekday: 80, weekend: 70 });
}

#[test]
fn weekday_stay_costs_weekday_prices() {
    let h = hotel("Lakewood", 3, (110, 90), (80, 70));
    let dates = vec![day(Weekday::Monday), day(Weekday::Tuesday), day(Weekday::Wednesday)];
    assert_eq!(h.rate(CustomerKind::Regular, &dates), Some(330));
    assert_eq!(h.rate(CustomerKind::Rewards, &dates), Some(240));
}

#[test]
fn weekend_stay_costs_weekend_prices() {
    let h = hotel("Lakewood", 3, (110, 90), (80, 70));
    let dates = vec![day(Weekday::Saturday), day(Weekday::Sunday)];
    assert_eq!(h.rate(CustomerKind::Regular, &dates), Some(180));
    assert_eq!(h.rate(CustomerKind::Rewards, &dates), Some(140));
}

#[test]
fn mixed_stay_sums_each_night() {
    let h = hotel("Bridgewood", 4, (160, 60), (110, 50));
    let dates = vec![day(Weekday::Friday), day(Weekday::Saturday), day(Weekday::Sunday)];
    assert_eq!(h.rate(CustomerKind::Regular, &dates), Some(280));
    assert_eq!(h.rate(CustomerKind::Rewards, &dates), Some(210));
    assert_eq!(h.rate(CustomerKind::Regular, &[]), Some(0));
}

#[test]
fn rate_overflow_is_none() {
    let h = hotel("Costly", 1, (u32::MAX, 1), (1, 1));
    assert_eq!(h.rate(CustomerKind::Regular, &[day(Weekday::Monday)]), Some(u32::MAX));
    assert_eq!(h.rate(CustomerKind::Regular, &[day(Weekday::Monday), day(Weekday::Sunday)]), None);
}

#[test]
fn cheapest_hotel_wins() {
    let db = sample_db();
    assert_eq!(db.answer("Regular: 16Mar2009(mon), 17Mar2009(tues), 18Mar2009(wed)"), Ok("Lakewood".to_string()));
    assert_eq!(db.answer("Regular: 20Mar2009(fri), 21Mar2009(sat), 22Mar2009(sun)"), Ok("Bridgewood".to_string()));
    assert_eq!(db.answer("Rewards: 26Mar2009(thur), 27Mar2009(fri), 28Mar2009(sat)"), Ok("Ridgewood".to_string()));
}

#[test]
fn equal_price_prefers_higher_rating() {
    let db = HotelDb(vec![hotel("Low", 2, (100, 100), (1, 1)), hotel("High", 5, (100, 100), (1, 1))]);
    let dates = vec![day(Weekday::Monday)];
    assert_eq!(db.select(CustomerKind::Regular, &dates), Ok(1));
    let db = HotelDb(vec![hotel("High", 5, (100, 100), (1, 1)), hotel("Low", 2, (100, 100), (1, 1))]);
    assert_eq!(db.select(CustomerKind::Regular, &dates), Ok(0));
}

#[test]
fn full_tie_prefers_first_listed() {
    let db = HotelDb(vec![
        hotel("Dear", 1, (300, 300), (1, 1)),
        hotel("First", 4, (100, 100), (1, 1)),
        hotel("Second", 4, (100, 100), (1, 1)),
    ]);
    assert_eq!(db.answer("Regular: 16Mar2009(mon)"), Ok("First".to_string()));
}

#[test]
fn selection_is_deterministic() {
    let db = sample_db();
    let line = "Rewards: 16Mar2009(mon), 21Mar2009(sat)";
    assert_eq!(db.answer(line), db.answer(line));
}

#[test]
fn rewards_example_from_two_hotels() {
    let db = HotelDb(vec![
        hotel("Lakewood", 3, (110, 90), (80, 80)),
        hotel("Bridgewood", 4, (160, 60), (110, 50)),
    ]);
    let (kind, dates) = parse_booking("Rewards: 16Mar2009(mon), 17Mar2009(tues)").unwrap();
    assert_eq!(db.0[0].rate(kind, &dates), Some(160));
    assert_eq!(db.0[1].rate(kind, &dates), Some(220));
    assert_eq!(db.answer("Rewards: 16Mar2009(mon), 17Mar2009(tues)"), Ok("Lakewood".to_string()));
}

#[test]
fn empty_database_fails_with_line() {
    let db = HotelDb(vec![]);
    let line = "Regular: 16Mar2009(mon)";
    assert_eq!(db.answer(line), Err(BookingError::NoHotels(line.to_string())));
    assert_eq!(db.select(CustomerKind::Regular, &[day(Weekday::Monday)]), Err(SelectionError::NoHotels));
}

#[test]
fn overflowing_price_fails_with_line() {
    let db = HotelDb(vec![hotel("Cheap", 1, (1, 1), (1, 1)), hotel("Costly", 1, (u32::MAX, 1), (1, 1))]);
    let line = "Regular: 16Mar2009(mon), 17Mar2009(tues)";
    assert_eq!(db.answer(line), Err(BookingError::PriceOverflow(line.to_string())));
}

#[test]
fn bad_tier_gives_no_answer() {
    let db = sample_db();
    assert_eq!(
        db.answer("Silver: 16Mar2009(mon)"),
        Err(BookingError::Parse(
            "Silver: 16Mar2009(mon)".to_string(),
            ParseError::UnknownCustomerKind("Silver: 1".to_string())
        ))
    );
}

#[test]
fn bad_date_error_names_token_and_line() {
    let db = sample_db();
    let line = "Regular: 16Mar2009(xyz)";
    assert_eq!(
        db.answer(line),
        Err(BookingError::Parse(
            line.to_string(),
            ParseError::InvalidDate(
                "16Mar2009(xyz)".to_string(),
                DateFault::InvalidWeekday("xyz".to_string())
            )
        ))
    );
}
