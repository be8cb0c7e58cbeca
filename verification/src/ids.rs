//! Asset and folder identifiers: UUIDs, held as their 128-bit value.

use vstd::prelude::*;

verus! {

/// What `uuid::Uuid::parse_str` makes of `text`: the UUID's 128-bit value, or
/// the text of the error it reports.
pub uninterp spec fn uuid_parse(text: Seq<char>) -> Result<u128, Seq<char>>;

/// Parse `text` as a UUID with `uuid::Uuid::parse_str`, which accepts the
/// simple, hyphenated, braced and URN forms; an error is given back as its
/// message. The contract claims only that the outcome is the named function of
/// the text.
#[verifier::external_body]
pub(crate) fn parse_uuid(text: &str) -> (r: Result<u128, String>)
    ensures
        match r {
            Ok(u) => uuid_parse(text@) == Ok::<u128, Seq<char>>(u),
            Err(e) => uuid_parse(text@) == Err::<u128, Seq<char>>(e@),
        },
{
    uuid::Uuid::parse_str(text).map(|u| u.as_u128()).map_err(|e| e.to_string())
}

/// The lower-case hexadecimal digit for `d < 16`.
pub open spec fn hex_digit(d: nat) -> char {
    if d < 10 {
        (48 + d) as char
    } else {
        (87 + d) as char
    }
}

/// The last `width` hexadecimal digits of `v`, most significant first.
pub open spec fn hex_fixed(v: nat, width: nat) -> Seq<char>
    decreases width,
{
    if width == 0 {
        seq![]
    } else {
        hex_fixed(v / 16, (width - 1) as nat).push(hex_digit(v % 16))
    }
}

/// The hyphenated lower-case text of a UUID: its 32 hexadecimal digits, most
/// significant first, grouped 8-4-4-4-12.
pub open spec fn uuid_text(u: u128) -> Seq<char> {
    let h = hex_fixed(u as nat, 32);
    h.subrange(0, 8) + seq!['-'] + h.subrange(8, 12) + seq!['-'] + h.subrange(12, 16) + seq!['-']
        + h.subrange(16, 20) + seq!['-'] + h.subrange(20, 32)
}

/// The text of the UUID whose value is `u`, as `uuid::Uuid`'s `Display`
/// writes it: hyphenated and lower case.
#[verifier::external_body]
pub(crate) fn uuid_string(u: u128) -> (s: String)
    ensures
        s@ == uuid_text(u),
{
    uuid::Uuid::from_u128(u).to_string()
}

} // verus!
