//! Fresh identifiers and the current time, for newly created records.
use vstd::prelude::*;

verus! {

/// A lowercase hexadecimal digit.
pub open spec fn is_hex_digit(c: char) -> bool {
    ('0' as u32 <= c as u32 <= '9' as u32) || ('a' as u32 <= c as u32 <= 'f' as u32)
}

/// The value of a lowercase hexadecimal digit.
pub open spec fn hex_digit_value(c: char) -> nat {
    if c as u32 <= '9' as u32 {
        (c as u32 - '0' as u32) as nat
    } else {
        (c as u32 - 'a' as u32 + 10) as nat
    }
}

/// The value of a string of hexadecimal digits, most significant first.
pub open spec fn hex_value(s: Seq<char>) -> nat
    decreases s.len(),
{
    if s.len() == 0 {
        0
    } else {
        hex_value(s.drop_last()) * 16 + hex_digit_value(s.last())
    }
}

/// A UUID in its hyphenated lowercase form: 36 characters, hyphens at
/// positions 8, 13, 18 and 23, hexadecimal digits elsewhere, the version
/// digit at position 14 and the RFC 4122 variant (`8`, `9`, `a` or `b`) at
/// position 19.
pub open spec fn is_hyphenated_uuid(s: Seq<char>, version: char) -> bool {
    &&& s.len() == 36
    &&& forall|i: int|
        0 <= i < 36 ==> if i == 8 || i == 13 || i == 18 || i == 23 {
            #[trigger] s[i] == '-'
        } else {
            is_hex_digit(s[i])
        }
    &&& s[14] == version
    &&& (s[19] == '8' || s[19] == '9' || s[19] == 'a' || s[19] == 'b')
}

/// The 48-bit millisecond timestamp that leads a version 7 UUID made at
/// `secs` seconds and `nanos` nanoseconds after the Unix epoch (the count
/// of milliseconds saturates at `u64::MAX`, and its low 48 bits are kept).
pub open spec fn v7_millis(secs: u64, nanos: u32) -> nat {
    let m = secs * 1000 + nanos / 1_000_000;
    ((if m > u64::MAX {
        u64::MAX as int
    } else {
        m
    }) % 0x1_0000_0000_0000) as nat
}

/// The timestamp that a hyphenated UUID carries in its first twelve
/// hexadecimal digits.
pub open spec fn uuid_millis(s: Seq<char>) -> nat {
    hex_value(s.subrange(0, 8) + s.subrange(9, 13))
}

/// Whether the identifier's timestamp is a moment within second `secs`.
pub open spec fn made_in_second(id: Seq<char>, secs: u64) -> bool {
    exists|n: u32| n < 1_000_000_000 && uuid_millis(id) == #[trigger] v7_millis(secs, n)
}

/// A version 7 identifier for the moment `secs` seconds and `nanos`
/// nanoseconds after the Unix epoch: `uuid::Timestamp::from_unix` with
/// `uuid::NoContext`, then `uuid::Uuid::new_v7`, written with `to_string()`.
/// The crate writes it in the hyphenated lowercase form, with version digit
/// `7` and the millisecond timestamp in the first twelve digits; the other
/// digits are random and left unsaid. Like every random identifier of the
/// crate, it panics only if the operating system's random source fails,
/// which depends on the machine and on no argument.
#[verifier::external_body]
fn v7_id(secs: u64, nanos: u32) -> (r: String)
    requires
        nanos < 1_000_000_000,
    ensures
        is_hyphenated_uuid(r@, '7'),
        uuid_millis(r@) == v7_millis(secs, nanos),
{
    uuid::Uuid::new_v7(uuid::Timestamp::from_unix(uuid::NoContext, secs, nanos)).to_string()
}

/// A random identifier: `uuid::Uuid::new_v4()` written with `to_string()`.
/// The crate writes it in the hyphenated lowercase form, with version digit
/// `4`; the other digits are random and left unsaid. It panics only if the
/// operating system's random source fails, which depends on the machine.
#[verifier::external_body]
pub(crate) fn random_id() -> (r: String)
    ensures
        is_hyphenated_uuid(r@, '4'),
{
    uuid::Uuid::new_v4().to_string()
}

/// The time since the Unix epoch from `std::time::SystemTime::now()`, as
/// whole seconds and the nanoseconds past them (below one billion, as
/// `Duration::subsec_nanos` documents). `None` when the clock stands before
/// the epoch (`duration_since` fails). The value depends on the clock, so
/// nothing else is stated of it.
#[verifier::external_body]
fn unix_now() -> (r: Option<(u64, u32)>)
    ensures
        r matches Some((_, nanos)) ==> nanos < 1_000_000_000,
{
    match std::time::SystemTime::now().duration_since(std::time::UNIX_EPOCH) {
        Ok(d) => Some((d.as_secs(), d.subsec_nanos())),
        Err(_) => None,
    }
}

/// A fresh version 7 identifier and the current time in seconds since the
/// Unix epoch, the identifier made at that time. Fails with `Time went
/// backwards` when the clock stands before the epoch.
pub fn fresh_identity() -> (r: Result<(String, u64), String>)
    ensures
        r matches Ok((id, t)) ==> is_hyphenated_uuid(id@, '7') && made_in_second(id@, t),
        r matches Err(e) ==> e@ == "Time went backwards"@,
{
    match unix_now() {
        Some((secs, nanos)) => {
            let id = v7_id(secs, nanos);
            assert(uuid_millis(id@) == v7_millis(secs, nanos));
            Ok((id, secs))
        },
        None => Err(String::from_str("Time went backwards")),
    }
}

} // verus!
