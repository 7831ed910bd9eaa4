//! Event identifiers.
//!
//! An event id is the 128-bit value of a ULID-class identifier: its upper
//! 48 bits hold the creation time in Unix milliseconds, so numeric order
//! follows creation order.  The `ulid` crate supplies fresh values and the
//! canonical 26-character text form; `IdGen` bumps fresh values so that
//! the ids a context issues are strictly increasing.

use vstd::prelude::*;

verus! {

/// The 128-bit value of an event identifier.
pub type EventId = u128;

/// The canonical 26-character Crockford base32 text of an identifier.
pub uninterp spec fn ulid_text(id: u128) -> Seq<char>;

/// What decoding identifier text yields; a function of the text alone.
pub uninterp spec fn ulid_parse(s: Seq<char>) -> Option<u128>;

/// Relies on ulid::Ulid::generate: a fresh identifier from the clock and
/// a random source; nothing is promised of the value.
#[verifier::external_body]
fn fresh_ulid() -> (id: u128) {
    ulid::Ulid::generate().0
}

/// Relies on ulid::Ulid::to_string: the 26-character Crockford base32
/// encoding, a function of the 128-bit value alone.
#[verifier::external_body]
pub fn ulid_to_string(id: u128) -> (s: String)
    ensures
        s@ == ulid_text(id),
        s@.len() == 26,
{
    ulid::Ulid(id).to_string()
}

/// Relies on ulid::Ulid::from_string: decoding is a function of the text
/// alone and inverts the encoding (their documentation shows that
/// from_string of a to_string result returns the original value).
#[verifier::external_body]
pub fn ulid_from_string(s: &str) -> (r: Option<u128>)
    ensures
        r == ulid_parse(s@),
        forall|id: u128| s@ == ulid_text(id) ==> r == Some(id),
{
    match ulid::Ulid::from_string(s) {
        Ok(u) => Some(u.0),
        Err(_) => None,
    }
}

/// The creation time an identifier carries: its upper 48 bits.
pub open spec fn spec_ulid_timestamp_ms(id: u128) -> u64 {
    (id >> 80) as u64
}

pub fn ulid_timestamp_ms(id: u128) -> (t: u64)
    ensures
        t == spec_ulid_timestamp_ms(id),
{
    (id >> 80) as u64
}

/// Issues identifiers that are strictly increasing within one generator,
/// as an order-preserving identifier source must.
pub struct IdGen {
    /// The most recently issued identifier, if any.
    pub last: Option<u128>,
}

impl IdGen {
    pub fn new() -> (g: IdGen)
        ensures
            g.last == Option::<u128>::None,
    {
        IdGen { last: None }
    }

    /// Draws a fresh identifier and, where the clock or randomness did not
    /// move it past the previous one, bumps it just above it.  `None` only
    /// in the unreachable case that the identifier space is exhausted.
    pub fn next_id(&mut self) -> (r: Option<u128>)
        ensures
            match r {
                Some(id) => final(self).last == Some(id) && match old(self).last {
                    Some(l) => id > l,
                    None => true,
                },
                None => old(self).last == Some(u128::MAX) && *final(self) == *old(self),
            },
    {
        let raw = fresh_ulid();
        match self.last {
            None => {
                self.last = Some(raw);
                Some(raw)
            },
            Some(l) => {
                if raw > l {
                    self.last = Some(raw);
                    Some(raw)
                } else if l < u128::MAX {
                    let id = l + 1;
                    self.last = Some(id);
                    Some(id)
                } else {
                    None
                }
            },
        }
    }
}

} // verus!
