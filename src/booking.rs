//! Reading a booking line: `<Tier>: <Date1>, <Date2>, ...`.
use vstd::prelude::*;
use crate::date::date_parse;
use crate::error::{viewed, ParseError};
use crate::model::{CustomerKind, Date};
use crate::text::same_text;

verus! {

/// The number of characters of the tier prefix, `Rewards: ` or `Regular: `.
pub const CUSTOMER_KIND_LEN: usize = 9;

/// The tier that a prefix names, if any.
pub open spec fn customer_named(prefix: Seq<char>) -> Option<CustomerKind> {
    if prefix == "Rewards: "@ {
        Some(CustomerKind::Rewards)
    } else if prefix == "Regular: "@ {
        Some(CustomerKind::Regular)
    } else {
        None
    }
}

/// Whether a separator `, ` starts at position `i` of `s`.
pub open spec fn separator_at(s: Seq<char>, i: int) -> bool {
    0 <= i && i + 1 < s.len() && s[i] == ',' && s[i + 1] == ' '
}

/// Splitting `s` from position `i` on, where `done` holds the pieces already
/// closed and `cur` the piece being read: separators are taken from left to
/// right, and the text after the last one is the last piece.
pub open spec fn split_from(s: Seq<char>, i: int, done: Seq<Seq<char>>, cur: Seq<char>) -> Seq<Seq<char>>
    decreases s.len() - i,
{
    if i < 0 || i >= s.len() {
        done.push(cur)
    } else if separator_at(s, i) {
        split_from(s, i + 2, done.push(cur), Seq::empty())
    } else {
        split_from(s, i + 1, done, cur.push(s[i]))
    }
}

/// The pieces of `s` between the separators `, `; an empty text gives one
/// empty piece.
pub open spec fn split_tokens(s: Seq<char>) -> Seq<Seq<char>> {
    split_from(s, 0, Seq::empty(), Seq::empty())
}

/// Reading every token as a date, in order; the first token at fault decides
/// the error.
pub open spec fn dates_parse(tokens: Seq<Seq<char>>) -> Result<Seq<Date>, ParseError<Seq<char>>>
    decreases tokens.len(),
{
    if tokens.len() == 0 {
        Ok(Seq::empty())
    } else {
        match dates_parse(tokens.drop_last()) {
            Err(e) => Err(e),
            Ok(ds) => match date_parse(tokens.last()) {
                Err(e) => Err(e),
                Ok(d) => Ok(ds.push(d)),
            },
        }
    }
}

/// Reading a booking line: the tier, then the dates after the prefix.
pub open spec fn booking_parse(line: Seq<char>) -> Result<
    (CustomerKind, Seq<Date>),
    ParseError<Seq<char>>,
> {
    if line.len() < CUSTOMER_KIND_LEN {
        Err(ParseError::MissingCustomerKind(line))
    } else {
        let prefix = line.subrange(0, CUSTOMER_KIND_LEN as int);
        match customer_named(prefix) {
            None => Err(ParseError::UnknownCustomerKind(prefix)),
            Some(c) => match dates_parse(
                split_tokens(line.subrange(CUSTOMER_KIND_LEN as int, line.len() as int)),
            ) {
                Err(e) => Err(e),
                Ok(ds) => Ok((c, ds)),
            },
        }
    }
}

/// Once a prefix of the tokens is at fault, so is the whole, with that error.
proof fn lemma_first_fault_decides(tokens: Seq<Seq<char>>, k: int)
    requires
        0 <= k <= tokens.len(),
        dates_parse(tokens.subrange(0, k)) is Err,
    ensures
        dates_parse(tokens) == dates_parse(tokens.subrange(0, k)),
    decreases tokens.len(),
{
    if k < tokens.len() {
        assert(tokens.drop_last().subrange(0, k) =~= tokens.subrange(0, k));
        lemma_first_fault_decides(tokens.drop_last(), k);
    } else {
        assert(tokens.subrange(0, k) =~= tokens);
    }
}

/// The tokens of `s` between the separators `, `.
fn split_on_separator(s: &str) -> (r: Vec<&str>)
    ensures
        r@.len() == split_tokens(s@).len(),
        forall|k: int| 0 <= k < r@.len() ==> (#[trigger] r@[k])@ == split_tokens(s@)[k],
{
    let n = s.unicode_len();
    let mut pieces: Vec<&str> = Vec::new();
    let ghost mut done: Seq<Seq<char>> = Seq::empty();
    let mut start: usize = 0;
    let mut i: usize = 0;
    proof {
        assert(s@.subrange(0, 0) =~= Seq::<char>::empty());
    }
    while i < n
        invariant
            n == s@.len(),
            0 <= start <= i <= n,
            split_from(s@, i as int, done, s@.subrange(start as int, i as int)) == split_tokens(
                s@,
            ),
            pieces@.len() == done.len(),
            forall|k: int| 0 <= k < pieces@.len() ==> (#[trigger] pieces@[k])@ == done[k],
        decreases n - i,
    {
        if i + 1 < n && s.get_char(i) == ',' && s.get_char(i + 1) == ' ' {
            pieces.push(s.substring_char(start, i));
            proof {
                done = done.push(s@.subrange(start as int, i as int));
                assert(s@.subrange(i + 2, i + 2) =~= Seq::<char>::empty());
            }
            i = i + 2;
            start = i;
        } else {
            proof {
                assert(s@.subrange(start as int, i as int).push(s@[i as int]) =~= s@.subrange(
                    start as int,
                    i + 1,
                ));
            }
            i = i + 1;
        }
    }
    pieces.push(s.substring_char(start, n));
    pieces
}

/// Reads a booking line: a tier prefix `Rewards: ` or `Regular: `, then date
/// tokens separated by `, `, kept in order. There must be at least one date:
/// nothing after the prefix is one empty token, which is no date.
pub fn parse_booking(input: &str) -> (r: Result<(CustomerKind, Vec<Date>), ParseError<String>>)
    ensures
        match booking_parse(input@) {
            Ok((c, ds)) => r matches Ok((c2, v)) && c2 == c && v@ == ds,
            Err(e) => r matches Err(e2) && e2@ == e,
        },
{
    let n = input.unicode_len();
    if n < CUSTOMER_KIND_LEN {
        return Err(ParseError::MissingCustomerKind(input.to_owned()));
    }
    let prefix = input.substring_char(0, CUSTOMER_KIND_LEN);
    let customer = if same_text(prefix, "Rewards: ") {
        CustomerKind::Rewards
    } else if same_text(prefix, "Regular: ") {
        CustomerKind::Regular
    } else {
        return Err(ParseError::UnknownCustomerKind(prefix.to_owned()));
    };
    let rest = input.substring_char(CUSTOMER_KIND_LEN, n);
    let tokens = split_on_separator(rest);
    let ghost toks = split_tokens(rest@);
    let mut dates: Vec<Date> = Vec::new();
    let mut i: usize = 0;
    while i < tokens.len()
        invariant
            rest@ == input@.subrange(CUSTOMER_KIND_LEN as int, input@.len() as int),
            customer_named(input@.subrange(0, CUSTOMER_KIND_LEN as int)) == Some(customer),
            input@.len() >= CUSTOMER_KIND_LEN,
            toks == split_tokens(rest@),
            0 <= i <= tokens@.len(),
            tokens@.len() == toks.len(),
            forall|k: int| 0 <= k < tokens@.len() ==> (#[trigger] tokens@[k])@ == toks[k],
            dates_parse(toks.subrange(0, i as int)) == Ok::<Seq<Date>, ParseError<Seq<char>>>(
                dates@,
            ),
        decreases tokens.len() - i,
    {
        let parsed = Date::from_str(tokens[i]);
        proof {
            assert(toks.subrange(0, i + 1).drop_last() =~= toks.subrange(0, i as int));
            assert(toks.subrange(0, i + 1).last() == toks[i as int]);
        }
        match parsed {
            Ok(d) => {
                dates.push(d);
            },
            Err(e) => {
                proof {
                    assert(dates_parse(toks.subrange(0, i + 1)) == Err::<Seq<Date>, _>(e@));
                    lemma_first_fault_decides(toks, i + 1);
                }
                return Err(e);
            },
        }
        i = i + 1;
    }
    proof {
        assert(toks.subrange(0, i as int) =~= toks);
    }
    Ok((customer, dates))
}

} // verus!
