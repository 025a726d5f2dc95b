//! Feed-ingestion pipeline core: authenticates against a remote content API,
//! fetches paginated listing pages, tracks a pagination cursor, converts items
//! into canonical records, and prepares them for publication to a message
//! broker topic keyed by timestamp.

use vstd::prelude::*;

pub mod auth;
pub mod codec;
pub mod json;
pub mod listing;
pub mod numfmt;
pub mod orchestrator;

verus! {

/// Relies on std's `FromIterator<char> for String`: collecting characters
/// yields the string of exactly those characters in order.
#[verifier::external_body]
pub fn chars_to_string(v: &Vec<char>) -> (r: String)
    ensures
        r@ == v@,
{
    v.iter().collect()
}

/// Relies on `str::chars`: the iterator yields the characters of the string
/// in order.
#[verifier::external_body]
pub fn str_to_chars(s: &str) -> (r: Vec<char>)
    ensures
        r@ == s@,
{
    s.chars().collect()
}

/// Relies on `str`'s `PartialEq`: two string slices are equal exactly when
/// their character sequences are equal.
#[verifier::external_body]
pub fn str_eq(a: &str, b: &str) -> (r: bool)
    ensures
        r == (a@ == b@),
{
    a == b
}

/// The canonical record published downstream: a normalized unit of feed data.
/// `timestamp` is assigned when the record is about to be published
/// (wall-clock seconds), not the source's original creation time.
#[derive(Debug)]
pub struct RedditPost {
    pub title: String,
    pub content: String,
    pub timestamp: i64,
}

impl RedditPost {
    /// The partition key routing this record to a broker partition:
    /// the decimal form of its timestamp.
    pub fn partition_key(&self) -> (r: String)
        ensures
            r@ == numfmt::spec_i64_dec(self.timestamp as int),
    {
        numfmt::i64_to_dec_string(self.timestamp)
    }
}

/// Why a record could not be delivered: the broker's report, or a timeout.
/// Reported per record; one record's failure does not touch its siblings or
/// the cursor.
#[derive(Debug)]
pub struct PublishError {
    pub reason: String,
}

/// Two records with equal timestamps always receive the same partition key.
pub proof fn lemma_partition_key_deterministic(a: RedditPost, b: RedditPost)
    requires
        a.timestamp == b.timestamp,
    ensures
        numfmt::spec_i64_dec(a.timestamp as int) == numfmt::spec_i64_dec(b.timestamp as int),
{
}

} // verus!
