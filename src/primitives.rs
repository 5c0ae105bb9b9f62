//! The outside computations a block relies on: fresh identifiers, the clock,
//! the text forms of identifiers, times and nonces, and the SHA-512 digest.
use sha2::Digest;
use vstd::prelude::*;

verus! {

/// The lowercase hexadecimal digit for a value below sixteen.
pub open spec fn hex_digit(d: nat) -> char {
    seq!['0', '1', '2', '3', '4', '5', '6', '7', '8', '9', 'a', 'b', 'c', 'd', 'e', 'f'][d as int]
}

/// The last `n` hexadecimal digits of `v`, most significant first.
pub open spec fn hex_digits(v: nat, n: nat) -> Seq<char>
    decreases n,
{
    if n == 0 {
        seq![]
    } else {
        hex_digits(v / 16, (n - 1) as nat).push(hex_digit(v % 16))
    }
}

/// The hyphenated lowercase form of a 128-bit identifier: 8-4-4-4-12 hex digits.
pub open spec fn uuid_text(id: u128) -> Seq<char> {
    let h = hex_digits(id as nat, 32);
    h.subrange(0, 8) + seq!['-'] + h.subrange(8, 12) + seq!['-'] + h.subrange(12, 16) + seq!['-']
        + h.subrange(16, 20) + seq!['-'] + h.subrange(20, 32)
}

/// The decimal digit for a value below ten.
pub open spec fn decimal_digit(d: nat) -> char {
    seq!['0', '1', '2', '3', '4', '5', '6', '7', '8', '9'][d as int]
}

/// The decimal form of `n`, without leading zeros.
pub open spec fn decimal_text(n: nat) -> Seq<char>
    decreases n,
{
    if n < 10 {
        seq![decimal_digit(n)]
    } else {
        decimal_text(n / 10).push(decimal_digit(n % 10))
    }
}

/// The text that chrono displays for the UTC instant `nanos` nanoseconds after
/// the Unix epoch.
pub uninterp spec fn utc_text(nanos: i64) -> Seq<char>;

/// The lowercase hexadecimal SHA-512 digest of the UTF-8 encoding of `s`.
pub uninterp spec fn sha512_hex(s: Seq<char>) -> Seq<char>;

/// Relies on `uuid::Uuid::new_v4` (read back with `Uuid::as_u128`): a random
/// identifier whose version field is 4 and whose variant bits are `10`.
#[verifier::external_body]
pub(crate) fn fresh_id() -> (r: u128)
    ensures
        (r >> 76u128) & 0xfu128 == 4u128,
        (r >> 62u128) & 0x3u128 == 2u128,
{
    uuid::Uuid::new_v4().as_u128()
}

/// Relies on `chrono::Utc::now` (read back with `DateTime::timestamp_nanos_opt`):
/// the current time in nanoseconds since the Unix epoch, or `None` where it does
/// not fit in an `i64`.
#[verifier::external_body]
pub(crate) fn clock_nanos() -> (r: Option<i64>) {
    chrono::Utc::now().timestamp_nanos_opt()
}

/// Relies on `uuid::Uuid::from_u128` and `Display` for `Uuid`, which writes the
/// hyphenated lowercase form of the 128 bits, most significant first.
#[verifier::external_body]
pub(crate) fn render_uuid(id: u128) -> (r: String)
    ensures
        r@ == uuid_text(id),
{
    uuid::Uuid::from_u128(id).to_string()
}

/// Relies on `chrono::DateTime::<Utc>::from_timestamp_nanos`, which accepts every
/// `i64`, and on `Display` for `DateTime<Utc>`.
#[verifier::external_body]
pub(crate) fn render_utc(nanos: i64) -> (r: String)
    ensures
        r@ == utc_text(nanos),
{
    chrono::DateTime::from_timestamp_nanos(nanos).to_string()
}

/// Relies on `ToString` for `u64`, which writes the decimal form.
#[verifier::external_body]
pub(crate) fn render_decimal(n: u64) -> (r: String)
    ensures
        r@ == decimal_text(n as nat),
{
    n.to_string()
}

/// Relies on `sha2::Sha512` (through `Digest::update` and `Digest::finalize`),
/// with the digest written as lowercase hexadecimal by its `LowerHex` form.
#[verifier::external_body]
pub(crate) fn sha512_hex_of(s: &String) -> (r: String)
    ensures
        r@ == sha512_hex(s@),
{
    let mut hasher = sha2::Sha512::new();
    hasher.update(s.as_bytes());
    format!("{:x}", hasher.finalize())
}

} // verus!
