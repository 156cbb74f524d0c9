//! The record model: what a statement source is, what is parsed out of it and
//! what is remembered about a finished import.

use vstd::prelude::*;

verus! {

/// The kind of brokerage activity that one statement record describes.
#[derive(Clone, Copy, Debug, PartialEq, Eq, Structural)]
pub enum Activity {
    Trade,
    Cash,
    Position,
    CorporateAction,
}

/// One normalized unit of brokerage activity.
///
/// `amount` counts minor units: the value is `amount / 10^precision` in the
/// currency with the numeric code `currency`. `source` is the fingerprint of
/// the statement source the record was parsed from.
#[derive(Clone, Copy, Debug, PartialEq, Eq, Structural)]
pub struct StatementRecord {
    pub account: u64,
    pub instrument: u64,
    pub timestamp: u64,
    pub amount: i64,
    pub currency: u16,
    pub precision: u8,
    pub activity: Activity,
    pub source: u64,
}

/// The durable marker that the source with this fingerprint was imported in
/// full, by which importer and when.
#[derive(Clone, Copy, Debug, PartialEq, Eq, Structural)]
pub struct ImportRecord {
    pub fingerprint: u64,
    pub importer: u64,
    pub timestamp: u64,
}

/// One importable input: where it came from, the fingerprint it is known by,
/// and its bytes.
#[derive(Clone, Debug)]
pub struct StatementSource {
    pub path: String,
    pub fingerprint: u64,
    pub content: Vec<u8>,
}

/// The value that the fingerprint of empty content has.
pub const FINGERPRINT_SEED: u64 = 0xcbf2_9ce4_8422_2325;

/// The factor by which a fingerprint is multiplied after each byte.
pub const FINGERPRINT_PRIME: u64 = 0x0000_0100_0000_01b3;

/// The fingerprint of `bytes`: starting from the seed, each byte in turn is
/// combined into the value by exclusive or, and the value is multiplied by
/// the prime, modulo 2^64.
pub open spec fn content_fingerprint(bytes: Seq<u8>) -> u64
    decreases bytes.len(),
{
    if bytes.len() == 0 {
        FINGERPRINT_SEED
    } else {
        (content_fingerprint(bytes.drop_last()) ^ (bytes.last() as u64)).wrapping_mul(
            FINGERPRINT_PRIME,
        )
    }
}

/// The fingerprint of `content`.
pub fn fingerprint_of(content: &Vec<u8>) -> (fingerprint: u64)
    ensures
        fingerprint == content_fingerprint(content@),
{
    let mut value: u64 = FINGERPRINT_SEED;
    let mut i: usize = 0;
    while i < content.len()
        invariant
            i <= content.len(),
            value == content_fingerprint(content@.take(i as int)),
        decreases content.len() - i,
    {
        proof {
            assert(content@.take(i + 1).drop_last() =~= content@.take(i as int));
        }
        value = (value ^ (content[i] as u64)).wrapping_mul(FINGERPRINT_PRIME);
        i = i + 1;
    }
    proof {
        assert(content@.take(content@.len() as int) =~= content@);
    }
    value
}

impl StatementSource {
    /// Builds a source from its path and content, with the fingerprint of the
    /// content.
    pub fn from_content(path: String, content: Vec<u8>) -> (source: StatementSource)
        ensures
            source.path == path,
            source.fingerprint == content_fingerprint(content@),
            source.content == content,
    {
        let fingerprint = fingerprint_of(&content);
        StatementSource { path, fingerprint, content }
    }

    /// Builds a source from its parts.
    pub fn new(path: String, fingerprint: u64, content: Vec<u8>) -> (source: StatementSource)
        ensures
            source.path == path,
            source.fingerprint == fingerprint,
            source.content == content,
    {
        StatementSource { path, fingerprint, content }
    }
}

/// The set of fingerprints that `records` mark as imported.
pub open spec fn imported_set(records: Seq<ImportRecord>) -> Set<u64> {
    Set::new(|f: u64| exists|i: int| 0 <= i < records.len() && #[trigger] records[i].fingerprint == f)
}

/// No two of `records` carry the same fingerprint.
pub open spec fn unique_fingerprints(records: Seq<ImportRecord>) -> bool {
    forall|i: int, j: int|
        0 <= i < j < records.len() ==> #[trigger] records[i].fingerprint != #[trigger] records[j].fingerprint
}

} // verus!
