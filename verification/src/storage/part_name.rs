//! The names of table parts: identifiers that tell when a part was made.
use core::cmp::Ordering;

use vstd::prelude::*;

use crate::storage::literal;
use crate::storage::literal::parse_uuid;
use crate::text::same_text;

verus! {

/// The version field of an identifier.
pub open spec fn uuid_version(bits: u128) -> u128 {
    (bits / 0x1000_0000_0000_0000_0000) % 16
}

/// The milliseconds since the epoch that an identifier of version 7 starts with.
pub open spec fn uuid_millis(bits: u128) -> u128 {
    bits / 0x1_0000_0000_0000_0000_0000
}

/// The seconds and nanoseconds since the epoch that `uuid::Uuid::get_timestamp` reads from the 128
/// bits of an identifier, where its version has a time.
pub uninterp spec fn uuid_time(bits: u128) -> Option<(u64, u32)>;

/// A number of milliseconds as seconds and nanoseconds.
pub open spec fn time_of_millis(millis: u128) -> Option<(u64, u32)> {
    Some(((millis / 1000) as u64, ((millis % 1000) * 1_000_000) as u32))
}

/// Calls `uuid::Uuid::get_timestamp` and `uuid::Timestamp::to_unix`. The result is a function of the
/// bits alone. Versions 1, 6 and 7 have a time, the others have none; that of version 7 is the
/// number of milliseconds that the identifier starts with.
#[verifier::external_body]
fn time_of_uuid(bits: u128) -> (r: Option<(u64, u32)>)
    ensures
        r == uuid_time(bits),
        r is Some == (uuid_version(bits) == 1 || uuid_version(bits) == 6 || uuid_version(bits) == 7),
        uuid_version(bits) == 7 ==> r == time_of_millis(uuid_millis(bits)),
{
    uuid::Uuid::from_u128(bits).get_timestamp().map(|time| time.to_unix())
}

/// Whether a text was read as an identifier of version 7.
pub open spec fn is_time_ordered(parsed: Result<u128, Seq<char>>) -> bool {
    parsed is Ok && uuid_version(parsed->Ok_0) == 7
}

/// Calls `uuid::Uuid::now_v7` and writes the identifier as text: `uuid::Uuid::parse_str` reads the
/// text as an identifier of version 7. Which one it is depends on the time and on chance. The clock
/// of the machine has to be past the epoch: before it the call does not return.
#[verifier::external_body]
pub(crate) fn new_part_name() -> (r: String)
    ensures
        is_time_ordered(literal::parsed_uuid(r@)),
{
    uuid::Uuid::now_v7().to_string()
}

/// The time at which a part with a given name was made, where the name tells it.
pub open spec fn part_time(name: Seq<char>) -> Option<(u64, u32)> {
    match literal::parsed_uuid(name) {
        Ok(bits) => uuid_time(bits),
        Err(_) => None,
    }
}

/// The time at which a part with a given name was made, where the name tells it.
pub fn time_of_part(name: &str) -> (r: Option<(u64, u32)>)
    ensures
        r == part_time(name@),
{
    match parse_uuid(name) {
        Ok(bits) => time_of_uuid(bits),
        Err(_) => None,
    }
}

/// Whether a time is later than another.
pub open spec fn is_later(a: (u64, u32), b: (u64, u32)) -> bool {
    a.0 > b.0 || (a.0 == b.0 && a.1 > b.1)
}

/// The order of two names, for the times that they tell.
pub open spec fn name_order(
    t1: Seq<char>,
    t2: Seq<char>,
    time1: Option<(u64, u32)>,
    time2: Option<(u64, u32)>,
) -> Ordering {
    if t1 == t2 {
        Ordering::Equal
    } else {
        match (time1, time2) {
            (Some(a), Some(b)) => if is_later(a, b) {
                Ordering::Greater
            } else {
                Ordering::Less
            },
            _ => Ordering::Equal,
        }
    }
}

/// The order of two names, for the times that they tell.
pub fn order_of_names(t1: &str, t2: &str, time1: Option<(u64, u32)>, time2: Option<(u64, u32)>) -> (r: Ordering)
    ensures
        r == name_order(t1@, t2@, time1, time2),
{
    if same_text(t1, t2) {
        return Ordering::Equal;
    }
    match (time1, time2) {
        (Some(a), Some(b)) => if (a.0 > b.0) || (a.0 == b.0 && a.1 > b.1) {
            Ordering::Greater
        } else {
            Ordering::Less
        },
        _ => Ordering::Equal,
    }
}

/// Try to parse both UUIDs and compare their timestamps.
pub fn cmp_uuid_strs_asc(t1: &str, t2: &str) -> (r: Ordering)
    ensures
        r == name_order(t1@, t2@, part_time(t1@), part_time(t2@)),
{
    order_of_names(t1, t2, time_of_part(t1), time_of_part(t2))
}

} // verus!
