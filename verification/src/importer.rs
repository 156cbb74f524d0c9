//! Importers for signature-framed statements.
//!
//! A statement starts with the signature of the broker that exported it;
//! fixed-width records follow, back to back, up to the end of the file. How a
//! record is laid out depends on the format of the importer.
//!
//! A ledger record is laid out as
//!
//! | bytes  | field      | encoding                         |
//! |--------|------------|----------------------------------|
//! | 0..8   | account    | little-endian                    |
//! | 8..16  | instrument | little-endian                    |
//! | 16..24 | timestamp  | little-endian                    |
//! | 24..32 | amount     | little-endian, two's complement  |
//! | 32..34 | currency   | little-endian                    |
//! | 34     | precision  |                                  |
//! | 35     | activity   | 0 trade, 1 cash, 2 position, 3 corporate action |
//!
//! A journal record is a cash movement, in hundredths of the currency unit,
//! laid out as
//!
//! | bytes  | field      | encoding                         |
//! |--------|------------|----------------------------------|
//! | 0..8   | account    | little-endian                    |
//! | 8..16  | timestamp  | little-endian                    |
//! | 16..24 | amount     | little-endian, two's complement  |
//! | 24..26 | currency   | little-endian                    |

use vstd::prelude::*;
use crate::model::Activity;
use crate::model::StatementRecord;

verus! {

/// The number of bytes that one ledger record occupies.
pub const RECORD_WIDTH: usize = 36;

/// The number of bytes that one journal record occupies.
pub const JOURNAL_WIDTH: usize = 26;

/// The precision of every journal amount.
pub const JOURNAL_PRECISION: u8 = 2;

/// The layout of the records that an importer reads.
#[derive(Clone, Copy, Debug, PartialEq, Eq, Structural)]
pub enum Format {
    /// Records of any activity, with instrument and precision.
    Ledger,
    /// Cash movements only.
    Journal,
}

/// The number a little-endian run of eight bytes stands for.
pub open spec fn le_u64(bytes: Seq<u8>, at: int) -> int {
    bytes[at] + 0x100 * bytes[at + 1] + 0x1_0000 * bytes[at + 2] + 0x100_0000 * bytes[at + 3]
        + 0x1_0000_0000 * bytes[at + 4] + 0x100_0000_0000 * bytes[at + 5] + 0x1_0000_0000_0000
        * bytes[at + 6] + 0x100_0000_0000_0000 * bytes[at + 7]
}

/// The number a little-endian run of two bytes stands for.
pub open spec fn le_u16(bytes: Seq<u8>, at: int) -> int {
    bytes[at] + 0x100 * bytes[at + 1]
}

/// The signed number that the unsigned 64-bit pattern `bits` stands for in
/// two's complement.
pub open spec fn signed(bits: int) -> int {
    if bits < 0x8000_0000_0000_0000 {
        bits
    } else {
        bits - 0x1_0000_0000_0000_0000
    }
}

/// The activity that a code byte stands for, if any.
pub open spec fn activity_of(code: u8) -> Option<Activity> {
    if code == 0 {
        Some(Activity::Trade)
    } else if code == 1 {
        Some(Activity::Cash)
    } else if code == 2 {
        Some(Activity::Position)
    } else if code == 3 {
        Some(Activity::CorporateAction)
    } else {
        None
    }
}

/// The byte offset at which record `k` starts in a file whose signature is
/// `skip` bytes long.
pub open spec fn record_offset(skip: int, k: int) -> int {
    skip + 36 * k
}

/// The number of complete records that follow the first `skip` bytes of
/// `content`.
pub open spec fn record_count(content: Seq<u8>, skip: int) -> int {
    (content.len() - skip) / 36
}

/// Record `k` carries a known activity code.
pub open spec fn record_valid(content: Seq<u8>, skip: int, k: int) -> bool {
    activity_of(content[record_offset(skip, k) + 35]) is Some
}

/// Record `k` of `content`, attributed to the source with fingerprint `source`.
pub open spec fn decode_record(content: Seq<u8>, skip: int, k: int, source: u64) -> StatementRecord {
    let at = record_offset(skip, k);
    StatementRecord {
        account: le_u64(content, at) as u64,
        instrument: le_u64(content, at + 8) as u64,
        timestamp: le_u64(content, at + 16) as u64,
        amount: signed(le_u64(content, at + 24)) as i64,
        currency: le_u16(content, at + 32) as u16,
        precision: content[at + 34],
        activity: activity_of(content[at + 35]).unwrap(),
        source,
    }
}

/// The first `n` records of `content`.
pub open spec fn decode_records(content: Seq<u8>, skip: int, n: int, source: u64) -> Seq<StatementRecord> {
    Seq::new(n as nat, |k: int| decode_record(content, skip, k, source))
}

/// Every complete record before record `n` is valid.
pub open spec fn valid_before(content: Seq<u8>, skip: int, n: int) -> bool {
    forall|k: int| 0 <= k < n ==> record_valid(content, skip, k)
}

/// What parsing `content` after a signature of `skip` bytes gives: the records
/// in file order, or the byte offset of the first thing that is wrong. That
/// is the first complete record with an unknown activity code, or else the
/// start of a truncated record at the end of the file.
pub open spec fn parse_outcome(content: Seq<u8>, skip: int, source: u64) -> Result<
    Seq<StatementRecord>,
    int,
> {
    let n = record_count(content, skip);
    if exists|k: int| 0 <= k < n && !record_valid(content, skip, k) {
        let bad = choose|k: int|
            0 <= k < n && !record_valid(content, skip, k) && valid_before(content, skip, k);
        Err(record_offset(skip, bad))
    } else if (content.len() - skip) % 36 != 0 {
        Err(record_offset(skip, n))
    } else {
        Ok(decode_records(content, skip, n, source))
    }
}

/// `content` starts with `signature`.
pub open spec fn has_signature(signature: Seq<u8>, content: Seq<u8>) -> bool {
    signature.len() <= content.len() && content.subrange(0, signature.len() as int) == signature
}

/// Journal record `k` of `content`, attributed to the source with fingerprint
/// `source`.
pub open spec fn journal_record(content: Seq<u8>, skip: int, k: int, source: u64) -> StatementRecord {
    let at = skip + 26 * k;
    StatementRecord {
        account: le_u64(content, at) as u64,
        instrument: 0,
        timestamp: le_u64(content, at + 8) as u64,
        amount: signed(le_u64(content, at + 16)) as i64,
        currency: le_u16(content, at + 24) as u16,
        precision: JOURNAL_PRECISION,
        activity: Activity::Cash,
        source,
    }
}

/// The first `n` journal records of `content`.
pub open spec fn journal_records(content: Seq<u8>, skip: int, n: int, source: u64) -> Seq<
    StatementRecord,
> {
    Seq::new(n as nat, |k: int| journal_record(content, skip, k, source))
}

/// What parsing `content` as a journal after a signature of `skip` bytes
/// gives: the records in file order, or the byte offset at which a truncated
/// record starts at the end of the file.
pub open spec fn journal_outcome(content: Seq<u8>, skip: int, source: u64) -> Result<
    Seq<StatementRecord>,
    int,
> {
    let n = (content.len() - skip) / 26;
    if (content.len() - skip) % 26 != 0 {
        Err(skip + 26 * n)
    } else {
        Ok(journal_records(content, skip, n, source))
    }
}

/// What an importer with the format `format` and the signature `signature`
/// makes of `content`: a fault at offset 0 where the content does not start
/// with the signature, else what parsing the records after it gives.
pub open spec fn statement_outcome(
    format: Format,
    signature: Seq<u8>,
    content: Seq<u8>,
    source: u64,
) -> Result<Seq<StatementRecord>, int> {
    if !has_signature(signature, content) {
        Err(0)
    } else {
        match format {
            Format::Ledger => parse_outcome(content, signature.len() as int, source),
            Format::Journal => journal_outcome(content, signature.len() as int, source),
        }
    }
}

/// An importer: a broker's identifier, the signature that its statements
/// start with, and the format of their records.
#[derive(Clone, Debug)]
pub struct Importer {
    pub id: u64,
    pub signature: Vec<u8>,
    pub format: Format,
}

fn read_u64(content: &Vec<u8>, at: usize) -> (value: u64)
    requires
        at + 8 <= content.len(),
    ensures
        value == le_u64(content@, at as int),
{
    let b0: u64 = content[at] as u64;
    let b1: u64 = content[at + 1] as u64;
    let b2: u64 = content[at + 2] as u64;
    let b3: u64 = content[at + 3] as u64;
    let b4: u64 = content[at + 4] as u64;
    let b5: u64 = content[at + 5] as u64;
    let b6: u64 = content[at + 6] as u64;
    let b7: u64 = content[at + 7] as u64;
    b0 + 0x100 * b1 + 0x1_0000 * b2 + 0x100_0000 * b3 + 0x1_0000_0000 * b4 + 0x100_0000_0000 * b5
        + 0x1_0000_0000_0000 * b6 + 0x100_0000_0000_0000 * b7
}

fn read_u16(content: &Vec<u8>, at: usize) -> (value: u16)
    requires
        at + 2 <= content.len(),
    ensures
        value == le_u16(content@, at as int),
{
    let b0: u16 = content[at] as u16;
    let b1: u16 = content[at + 1] as u16;
    b0 + 0x100 * b1
}

fn to_signed(bits: u64) -> (value: i64)
    ensures
        value == signed(bits as int),
{
    if bits < 0x8000_0000_0000_0000 {
        bits as i64
    } else {
        let below: u64 = u64::MAX - bits;
        -(below as i64) - 1
    }
}

fn to_activity(code: u8) -> (activity: Option<Activity>)
    ensures
        activity == activity_of(code),
{
    if code == 0 {
        Some(Activity::Trade)
    } else if code == 1 {
        Some(Activity::Cash)
    } else if code == 2 {
        Some(Activity::Position)
    } else if code == 3 {
        Some(Activity::CorporateAction)
    } else {
        None
    }
}

/// Parses the ledger records that follow the first `skip` bytes of `content`.
fn parse_ledger(content: &Vec<u8>, skip: usize, source: u64) -> (parsed: Result<
    Vec<StatementRecord>,
    usize,
>)
    requires
        skip <= content.len(),
    ensures
        match parse_outcome(content@, skip as int, source) {
            Ok(records) => parsed is Ok && parsed->Ok_0@ == records,
            Err(location) => parsed is Err && parsed->Err_0 == location,
        },
{
    let n: usize = (content.len() - skip) / RECORD_WIDTH;
    let mut records: Vec<StatementRecord> = Vec::new();
    let mut k: usize = 0;
    while k < n
        invariant
            k <= n,
            skip <= content.len(),
            n == record_count(content@, skip as int),
            valid_before(content@, skip as int, k as int),
            records@ == decode_records(content@, skip as int, k as int, source),
        decreases n - k,
    {
        let at: usize = skip + RECORD_WIDTH * k;
        match to_activity(content[at + 35]) {
            None => {
                proof {
                    lemma_first_fault(content@, skip as int, k as int, source);
                }
                return Err(at);
            },
            Some(activity) => {
                let record = StatementRecord {
                    account: read_u64(content, at),
                    instrument: read_u64(content, at + 8),
                    timestamp: read_u64(content, at + 16),
                    amount: to_signed(read_u64(content, at + 24)),
                    currency: read_u16(content, at + 32),
                    precision: content[at + 34],
                    activity,
                    source,
                };
                assert(record == decode_record(content@, skip as int, k as int, source));
                records.push(record);
                assert(records@ =~= decode_records(content@, skip as int, k as int + 1, source));
            },
        }
        k = k + 1;
    }
    if (content.len() - skip) % RECORD_WIDTH != 0 {
        return Err(skip + RECORD_WIDTH * n);
    }
    Ok(records)
}

/// Parses the journal records that follow the first `skip` bytes of `content`.
fn parse_journal(content: &Vec<u8>, skip: usize, source: u64) -> (parsed: Result<
    Vec<StatementRecord>,
    usize,
>)
    requires
        skip <= content.len(),
    ensures
        match journal_outcome(content@, skip as int, source) {
            Ok(records) => parsed is Ok && parsed->Ok_0@ == records,
            Err(location) => parsed is Err && parsed->Err_0 == location,
        },
{
    let n: usize = (content.len() - skip) / JOURNAL_WIDTH;
    if (content.len() - skip) % JOURNAL_WIDTH != 0 {
        return Err(skip + JOURNAL_WIDTH * n);
    }
    let mut records: Vec<StatementRecord> = Vec::new();
    let mut k: usize = 0;
    while k < n
        invariant
            k <= n,
            skip <= content.len(),
            n == (content@.len() - skip) / 26,
            records@ == journal_records(content@, skip as int, k as int, source),
        decreases n - k,
    {
        let at: usize = skip + JOURNAL_WIDTH * k;
        let record = StatementRecord {
            account: read_u64(content, at),
            instrument: 0,
            timestamp: read_u64(content, at + 8),
            amount: to_signed(read_u64(content, at + 16)),
            currency: read_u16(content, at + 24),
            precision: JOURNAL_PRECISION,
            activity: Activity::Cash,
            source,
        };
        assert(record == journal_record(content@, skip as int, k as int, source));
        records.push(record);
        assert(records@ =~= journal_records(content@, skip as int, k as int + 1, source));
        k = k + 1;
    }
    Ok(records)
}

impl Importer {
    /// What this importer makes of `content`.
    pub open spec fn outcome(self, content: Seq<u8>, source: u64) -> Result<
        Seq<StatementRecord>,
        int,
    > {
        statement_outcome(self.format, self.signature@, content, source)
    }

    /// Builds an importer from its identifier, signature and format.
    pub fn new(id: u64, signature: Vec<u8>, format: Format) -> (importer: Importer)
        ensures
            importer.id == id,
            importer.signature == signature,
            importer.format == format,
    {
        Importer { id, signature, format }
    }

    /// An importer of ledger statements.
    pub fn ledger(id: u64, signature: Vec<u8>) -> (importer: Importer)
        ensures
            importer.id == id,
            importer.signature == signature,
            importer.format == Format::Ledger,
    {
        Importer { id, signature, format: Format::Ledger }
    }

    /// An importer of journal statements.
    pub fn journal(id: u64, signature: Vec<u8>) -> (importer: Importer)
        ensures
            importer.id == id,
            importer.signature == signature,
            importer.format == Format::Journal,
    {
        Importer { id, signature, format: Format::Journal }
    }

    /// Whether this importer recognizes `content`: whether the content starts
    /// with the importer's signature. Any content is accepted as input.
    pub fn detect(&self, content: &Vec<u8>) -> (found: bool)
        ensures
            found == has_signature(self.signature@, content@),
    {
        let n: usize = self.signature.len();
        if content.len() < n {
            return false;
        }
        let mut i: usize = 0;
        while i < n
            invariant
                i <= n,
                n == self.signature.len(),
                n <= content.len(),
                forall|j: int| 0 <= j < i ==> content@[j] == self.signature@[j],
            decreases n - i,
        {
            if content[i] != self.signature[i] {
                assert(content@.subrange(0, n as int)[i as int] != self.signature@[i as int]);
                return false;
            }
            i = i + 1;
        }
        assert(content@.subrange(0, n as int) =~= self.signature@);
        true
    }

    /// Parses the records of `content` in this importer's format, attributing
    /// each to the source with fingerprint `source`. Fails with the byte
    /// offset of the first fault.
    pub fn parse(&self, content: &Vec<u8>, source: u64) -> (parsed: Result<
        Vec<StatementRecord>,
        usize,
    >)
        ensures
            match self.outcome(content@, source) {
                Ok(records) => parsed is Ok && parsed->Ok_0@ == records,
                Err(location) => parsed is Err && parsed->Err_0 == location,
            },
    {
        if !self.detect(content) {
            return Err(0);
        }
        match self.format {
            Format::Ledger => parse_ledger(content, self.signature.len(), source),
            Format::Journal => parse_journal(content, self.signature.len(), source),
        }
    }
}

/// With every record before `k` valid and record `k` not, `k` is the record
/// that `parse_outcome` reports.
proof fn lemma_first_fault(content: Seq<u8>, skip: int, k: int, source: u64)
    requires
        0 <= k < record_count(content, skip),
        valid_before(content, skip, k),
        !record_valid(content, skip, k),
    ensures
        parse_outcome(content, skip, source) == Err::<Seq<StatementRecord>, int>(
            record_offset(skip, k),
        ),
{
    let n = record_count(content, skip);
    let bad = choose|j: int|
        0 <= j < n && !record_valid(content, skip, j) && valid_before(content, skip, j);
    assert(0 <= bad < n && !record_valid(content, skip, bad) && valid_before(content, skip, bad));
    assert(bad == k) by {
        if bad < k {
            assert(record_valid(content, skip, bad));
        }
        if k < bad {
            assert(record_valid(content, skip, k));
        }
    }
}

} // verus!
