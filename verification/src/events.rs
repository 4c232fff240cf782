//! The ledger's event stream, as the confirmation listener consumes it.
//! A subscription delivers batches of encoded event records in arrival
//! order; each batch is decoded into a sequence of records tagged by
//! module and variant, and the listener either counts the registry
//! module's records or resolves on the first call-confirmed record.

use vstd::prelude::*;
use vstd::string::StringSliceAdditionalSpecFns;
use crate::Error;
use crate::codec::{parse_compact, read_compact};
use crate::hexcodec::{hex_bytes, hex_valid, hexstr_to_vec, strip_0x};
use crate::model::push_bytes;

verus! {

/// The registry module's index in the ledger's event encoding.
pub const REGISTRY_MODULE: u8 = 9;

/// The registry module's event variants.
pub const EVENT_ADDED_ENCLAVE: u8 = 0;

pub const EVENT_REMOVED_ENCLAVE: u8 = 1;

pub const EVENT_UPDATED_IPFS_HASH: u8 = 2;

pub const EVENT_FORWARDED: u8 = 3;

pub const EVENT_CALL_CONFIRMED: u8 = 4;

/// One decoded event record: the emitting module, the variant within it,
/// and the variant's raw payload bytes.
#[derive(Debug)]
pub struct EventRecord {
    pub module: u8,
    pub variant: u8,
    pub payload: Vec<u8>,
}

impl EventRecord {
    /// The record as plain values, for specification purposes.
    pub open spec fn as_tuple(&self) -> (u8, u8, Seq<u8>) {
        (self.module, self.variant, self.payload@)
    }
}

/// Whether a record belongs to the registry module's event family.
pub open spec fn is_registry(r: (u8, u8, Seq<u8>)) -> bool {
    r.0 == REGISTRY_MODULE
}

/// Whether a record is the worker's call-confirmed event.
pub open spec fn is_confirmed(r: (u8, u8, Seq<u8>)) -> bool {
    r.0 == REGISTRY_MODULE && r.1 == EVENT_CALL_CONFIRMED
}

/// Whether a record's payload is long enough for what its tag promises:
/// a call-confirmed record carries a 32-byte sender, then the reported
/// hash.
pub open spec fn record_valid(r: (u8, u8, Seq<u8>)) -> bool {
    is_confirmed(r) ==> r.2.len() >= 32
}

/// What one record at the head of `s` parses to, with the bytes it
/// consumes: a module byte, a variant byte, then a length-prefixed
/// payload.
pub open spec fn parse_record(s: Seq<u8>) -> Option<((u8, u8, Seq<u8>), nat)> {
    if s.len() < 2 {
        None
    } else {
        match parse_compact(s.skip(2)) {
            Some((n, k)) => if s.skip(2).len() >= k + n {
                if record_valid((s[0], s[1], s.skip(2).skip(k as int).take(n as int))) {
                    Some(((s[0], s[1], s.skip(2).skip(k as int).take(n as int)), 2 + k + n))
                } else {
                    None
                }
            } else {
                None
            },
            None => None,
        }
    }
}

/// What `count` records at the head of `s` parse to, consuming all of
/// `s` exactly.
pub open spec fn parse_records(s: Seq<u8>, count: nat) -> Option<Seq<(u8, u8, Seq<u8>)>>
    decreases count,
{
    if count == 0 {
        if s.len() == 0 {
            Some(Seq::empty())
        } else {
            None
        }
    } else {
        match parse_record(s) {
            Some((r, consumed)) => match parse_records(
                s.skip(consumed as int),
                (count - 1) as nat,
            ) {
                Some(rest) => Some(seq![r] + rest),
                None => None,
            },
            None => None,
        }
    }
}

/// What a whole batch decodes to: a compact record count, then that many
/// records, nothing left over.
pub open spec fn spec_decode_batch(b: Seq<u8>) -> Option<Seq<(u8, u8, Seq<u8>)>> {
    match parse_compact(b) {
        Some((count, k)) => parse_records(b.skip(k as int), count),
        None => None,
    }
}

/// The records of a decoded batch, as plain values.
pub open spec fn views_of(v: Seq<EventRecord>) -> Seq<(u8, u8, Seq<u8>)> {
    v.map_values(|r: EventRecord| r.as_tuple())
}

/// Prepends already-decoded records to a partial parse.
pub open spec fn opt_prepend(
    recs: Seq<(u8, u8, Seq<u8>)>,
    o: Option<Seq<(u8, u8, Seq<u8>)>>,
) -> Option<Seq<(u8, u8, Seq<u8>)>> {
    match o {
        Some(s) => Some(recs + s),
        None => None,
    }
}

/// Decodes one batch of event records.  The result mirrors the batch's
/// specification decoding exactly: a malformed batch — a bad prefix, a
/// truncated record, trailing bytes, or a call-confirmed record too short
/// for its sender — is rejected whole.
pub fn decode_batch(b: &[u8]) -> (r: Result<Vec<EventRecord>, Error>)
    ensures
        match r {
            Ok(v) => spec_decode_batch(b@) == Some(views_of(v@)),
            Err(e) => spec_decode_batch(b@) is None && e == Error::EncodingError,
        },
{
    let (count, start) = match read_compact(b, 0) {
        Some(p) => p,
        None => {
            proof {
                assert(b@.skip(0) =~= b@);
            }
            return Err(Error::EncodingError);
        },
    };
    proof {
        assert(b@.skip(0) =~= b@);
    }
    let mut out: Vec<EventRecord> = Vec::new();
    let mut pos: usize = start;
    let mut i: usize = 0;
    while i < count
        invariant
            0 <= i <= count,
            pos <= b@.len(),
            out@.len() == i,
            spec_decode_batch(b@) == opt_prepend(
                views_of(out@),
                parse_records(b@.skip(pos as int), (count - i) as nat),
            ),
        decreases count - i,
    {
        let ghost s = b@.skip(pos as int);
        let ghost out_before = out@;
        if b.len() - pos < 2 {
            return Err(Error::EncodingError);
        }
        let module = b[pos];
        let variant = b[pos + 1];
        proof {
            assert(s[0] == b@[pos as int] && s[1] == b@[pos as int + 1]);
            assert(s.skip(2) =~= b@.skip(pos + 2));
        }
        let (n, after_len) = match read_compact(b, pos + 2) {
            Some(p) => p,
            None => {
                return Err(Error::EncodingError);
            },
        };
        let ghost k = (after_len - pos - 2) as nat;
        if b.len() - after_len < n {
            return Err(Error::EncodingError);
        }
        let end = after_len + n;
        let mut payload: Vec<u8> = Vec::new();
        let mut j: usize = after_len;
        while j < end
            invariant
                after_len <= j <= end,
                end == after_len + n,
                end <= b@.len(),
                payload@ == b@.subrange(after_len as int, j as int),
            decreases end - j,
        {
            payload.push(b[j]);
            proof {
                assert(b@.subrange(after_len as int, j + 1) =~= b@.subrange(
                    after_len as int,
                    j as int,
                ).push(b@[j as int]));
            }
            j = j + 1;
        }
        proof {
            assert(s.skip(2).skip(k as int).take(n as int) =~= b@.subrange(
                after_len as int,
                after_len + n,
            ));
        }
        if module == REGISTRY_MODULE && variant == EVENT_CALL_CONFIRMED && payload.len() < 32 {
            return Err(Error::EncodingError);
        }
        let ghost rec_view = (module, variant, payload@);
        proof {
            assert(parse_record(s) == Some((rec_view, (2 + k + n) as nat)));
        }
        out.push(EventRecord { module, variant, payload });
        pos = after_len + n;
        i = i + 1;
        proof {
            assert(b@.skip(pos as int) =~= s.skip((2 + k + n) as int));
            assert(views_of(out@) =~= views_of(out_before).push(rec_view));
            assert(views_of(out_before) + (seq![rec_view] + parse_records(
                b@.skip(pos as int),
                (count - i) as nat,
            ).unwrap_or(Seq::empty())) =~= views_of(out@) + parse_records(
                b@.skip(pos as int),
                (count - i) as nat,
            ).unwrap_or(Seq::empty()));
        }
    }
    if pos != b.len() {
        return Err(Error::EncodingError);
    }
    proof {
        assert(b@.skip(pos as int) =~= Seq::<u8>::empty());
    }
    Ok(out)
}

/// The first call-confirmed record in a decoded batch, with its sender
/// and reported hash.  Records are consumed in delivery order, so the
/// index returned is the number of records examined before resolving.
pub fn find_confirmation(records: &Vec<EventRecord>) -> (r: Option<(usize, Vec<u8>, Vec<u8>)>)
    requires
        forall|i: int|
            0 <= i < records@.len() ==> record_valid(#[trigger] records@[i].as_tuple()),
    ensures
        match r {
            Some((i, sender, hash)) => {
                &&& i < records@.len()
                &&& is_confirmed(records@[i as int].as_tuple())
                &&& forall|j: int|
                    0 <= j < i ==> !is_confirmed(#[trigger] records@[j].as_tuple())
                &&& sender@ == records@[i as int].payload@.take(32)
                &&& hash@ == records@[i as int].payload@.skip(32)
            },
            None => forall|j: int|
                0 <= j < records@.len() ==> !is_confirmed(#[trigger] records@[j].as_tuple()),
        },
{
    let mut i: usize = 0;
    while i < records.len()
        invariant
            0 <= i <= records@.len(),
            forall|j: int| 0 <= j < i ==> !is_confirmed(#[trigger] records@[j].as_tuple()),
            forall|j: int|
                0 <= j < records@.len() ==> record_valid(#[trigger] records@[j].as_tuple()),
        decreases records@.len() - i,
    {
        let rec = &records[i];
        if rec.module == REGISTRY_MODULE && rec.variant == EVENT_CALL_CONFIRMED {
            let mut sender: Vec<u8> = Vec::new();
            let mut hash: Vec<u8> = Vec::new();
            proof {
                assert(record_valid(records@[i as int].as_tuple()));
            }
            let (head, tail) = rec.payload.as_slice().split_at(32);
            push_bytes(&mut sender, head);
            push_bytes(&mut hash, tail);
            proof {
                assert(sender@ =~= records@[i as int].payload@.take(32));
                assert(hash@ =~= records@[i as int].payload@.skip(32));
            }
            return Some((i, sender, hash));
        }
        i = i + 1;
    }
    None
}

/// How many records of a batch belong to the registry module.
pub open spec fn count_registry(s: Seq<(u8, u8, Seq<u8>)>) -> nat
    decreases s.len(),
{
    if s.len() == 0 {
        0
    } else {
        count_registry(s.drop_last()) + (if is_registry(s.last()) {
            1nat
        } else {
            0nat
        })
    }
}

/// No batch holds more registry records than records.
pub proof fn lemma_count_registry_bound(s: Seq<(u8, u8, Seq<u8>)>)
    ensures
        count_registry(s) <= s.len(),
    decreases s.len(),
{
    if s.len() > 0 {
        lemma_count_registry_bound(s.drop_last());
    }
}

/// The passive observer's state: how many registry events it has seen
/// across all batches fed to it.
pub struct EventCounter {
    pub count: u64,
}

impl EventCounter {
    /// A fresh observer that has seen nothing.
    pub fn new() -> (r: EventCounter)
        ensures
            r.count == 0,
    {
        EventCounter { count: 0 }
    }

    /// Counts the registry records of one decoded batch, in delivery
    /// order.
    pub fn feed(&mut self, records: &Vec<EventRecord>)
        requires
            old(self).count + records@.len() <= u64::MAX,
        ensures
            final(self).count == old(self).count + count_registry(views_of(records@)),
    {
        proof {
            lemma_count_registry_bound(views_of(records@));
        }
        let mut i: usize = 0;
        while i < records.len()
            invariant
                0 <= i <= records@.len(),
                old(self).count + records@.len() <= u64::MAX,
                self.count == old(self).count + count_registry(views_of(records@).take(i as int)),
            decreases records@.len() - i,
        {
            proof {
                lemma_count_registry_bound(views_of(records@).take(i as int));
                assert(views_of(records@).take(i + 1).drop_last() =~= views_of(records@).take(
                    i as int,
                ));
                assert(views_of(records@).take(i + 1).last() == records@[i as int].as_tuple());
            }
            if records[i].module == REGISTRY_MODULE {
                self.count = self.count + 1;
            }
            i = i + 1;
        }
        proof {
            assert(views_of(records@).take(records@.len() as int) =~= views_of(records@));
        }
    }

    /// Whether a caller-supplied threshold has been reached.
    pub fn reached(&self, threshold: u64) -> (r: bool)
        ensures
            r == (self.count >= threshold),
    {
        self.count >= threshold
    }
}

/// Every record of a decoded batch satisfies what its tag promises: the
/// batch decoder admits nothing else.
pub proof fn lemma_parse_records_valid(s: Seq<u8>, count: nat)
    ensures
        parse_records(s, count) matches Some(rs) ==> forall|i: int|
            0 <= i < rs.len() ==> record_valid(#[trigger] rs[i]),
    decreases count,
{
    if count > 0 {
        match parse_record(s) {
            Some((r, consumed)) => {
                lemma_parse_records_valid(s.skip(consumed as int), (count - 1) as nat);
            },
            None => {},
        }
    }
}

/// One step of the correlation listener: decode a hex batch as the
/// subscription delivers it and look for the first call-confirmed
/// record.  A batch that does not decode is reported as such — the
/// listener skips it and keeps waiting; a decodable batch either
/// resolves with the first confirmation's sender and reported hash or
/// holds none.
pub fn scan_batch_for_confirmation(batch_hex: &str) -> (r: Result<
    Option<(Vec<u8>, Vec<u8>)>,
    Error,
>)
    ensures
        match r {
            Ok(found) => {
                &&& hex_valid(strip_0x(batch_hex.spec_bytes()))
                &&& spec_decode_batch(hex_bytes(strip_0x(batch_hex.spec_bytes()))) matches Some(
                    recs,
                ) && match found {
                    Some((sender, hash)) => exists|i: int|
                        {
                            &&& 0 <= i < recs.len()
                            &&& is_confirmed(#[trigger] recs[i])
                            &&& forall|j: int| 0 <= j < i ==> !is_confirmed(#[trigger] recs[j])
                            &&& sender@ == recs[i].2.take(32)
                            &&& hash@ == recs[i].2.skip(32)
                        },
                    None => forall|j: int| 0 <= j < recs.len() ==> !is_confirmed(#[trigger] recs[j]),
                }
            },
            Err(e) => {
                &&& e == Error::EncodingError
                &&& !hex_valid(strip_0x(batch_hex.spec_bytes())) || spec_decode_batch(
                    hex_bytes(strip_0x(batch_hex.spec_bytes())),
                ) is None
            },
        },
{
    let bytes = hexstr_to_vec(batch_hex)?;
    let records = decode_batch(bytes.as_slice())?;
    proof {
        match parse_compact(bytes@) {
            Some((count, k)) => {
                lemma_parse_records_valid(bytes@.skip(k as int), count);
            },
            None => {},
        }
        assert(forall|i: int|
            0 <= i < records@.len() ==> record_valid(#[trigger] views_of(records@)[i]));
        assert forall|i: int|
            0 <= i < records@.len() implies record_valid(#[trigger] records@[i].as_tuple()) by {
            assert(views_of(records@)[i] == records@[i].as_tuple());
            assert(record_valid(views_of(records@)[i]));
        }
    }
    match find_confirmation(&records) {
        Some((i, sender, hash)) => {
            proof {
                let recs = views_of(records@);
                assert(recs[i as int] == records@[i as int].as_tuple());
                assert(forall|j: int|
                    0 <= j < i ==> !is_confirmed(#[trigger] recs[j]) && recs[j] == records@[
                        j
                    ].as_tuple());
            }
            Ok(Some((sender, hash)))
        },
        None => {
            proof {
                let recs = views_of(records@);
                assert(forall|j: int|
                    0 <= j < recs.len() ==> !is_confirmed(#[trigger] recs[j]) && recs[j]
                        == records@[j].as_tuple());
            }
            Ok(None)
        },
    }
}

/// Correlation is deterministic under a unique confirmation: when a batch
/// holds exactly one call-confirmed record among otherwise unrelated
/// records, the first-match rule resolves on exactly that record — after
/// examining no more records than the batch holds.
pub proof fn lemma_unique_confirmation(records: Seq<(u8, u8, Seq<u8>)>, k: int, i: int)
    requires
        0 <= k < records.len(),
        is_confirmed(records[k]),
        forall|j: int| 0 <= j < records.len() && j != k ==> !is_confirmed(#[trigger] records[j]),
        0 <= i < records.len(),
        is_confirmed(records[i]),
        forall|j: int| 0 <= j < i ==> !is_confirmed(#[trigger] records[j]),
    ensures
        i == k,
        i < records.len(),
{
}

} // verus!
