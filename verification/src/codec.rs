//! The chunk codec: the length-prefixed binary framing used for every unit
//! written to a storage file, and the corruption-tolerant reader over it.
//!
//! The file format, little-endian throughout:
//!
//! ```text
//! file  := snapshot_chunk log_entry_chunk*
//! chunk := u32_length payload(length bytes)
//! snapshot_chunk payload  := packed_object_bytes
//! log_entry_chunk payload := u32_transaction_key packed_transaction_bytes
//! ```
//!
//! A chunk whose header promises more data than is physically present (for
//! example after a crash mid-write) is treated as absent, not as an error,
//! and everything after it is discarded: the log is append-only and
//! contiguous, so a broken record marks the true end of valid data.

use vstd::bytes::lemma_auto_spec_u32_to_from_le_bytes;
use vstd::bytes::spec_u32_from_le_bytes;
use vstd::bytes::spec_u32_to_le_bytes;
use vstd::bytes::u32_from_le_bytes;
use vstd::bytes::u32_to_le_bytes;
use vstd::prelude::*;
use vstd::slice::slice_subrange;
use vstd::slice::slice_to_vec;

use crate::PackedObject;
use crate::PackedTransaction;
use crate::TransactionKey;
use crate::spec_txs;

verus! {

/// One chunk: a 4-byte little-endian length prefix followed by the payload.
pub open spec fn spec_chunk(payload: Seq<u8>) -> Seq<u8>
    recommends
        payload.len() <= u32::MAX,
{
    spec_u32_to_le_bytes(payload.len() as u32) + payload
}

/// One log-entry chunk: its payload is the 4-byte little-endian transaction
/// key followed by the packed transaction bytes.
pub open spec fn spec_entry_chunk(key: TransactionKey, data: Seq<u8>) -> Seq<u8>
    recommends
        data.len() + 4 <= u32::MAX,
{
    spec_chunk(spec_u32_to_le_bytes(key) + data)
}

/// The byte image of a sequence of log entries, in order.
pub open spec fn spec_entries_bytes(entries: Seq<(TransactionKey, Seq<u8>)>) -> Seq<u8>
    decreases entries.len(),
{
    if entries.len() == 0 {
        Seq::empty()
    } else {
        spec_entry_chunk(entries[0].0, entries[0].1) + spec_entries_bytes(entries.drop_first())
    }
}

/// The byte image of a well-formed storage file: one snapshot chunk followed
/// by the log entries in order.
pub open spec fn spec_file_bytes(snapshot: Seq<u8>, entries: Seq<(TransactionKey, Seq<u8>)>) -> Seq<
    u8,
> {
    spec_chunk(snapshot) + spec_entries_bytes(entries)
}

/// Reads one chunk at `pos`. `None` when fewer than 4 bytes remain for the
/// header, or when the header declares more payload bytes than are present:
/// both mark the end of valid data. On success, the payload and the position
/// just past the chunk.
pub open spec fn spec_read_chunk(s: Seq<u8>, pos: int) -> Option<(Seq<u8>, int)>
    recommends
        0 <= pos <= s.len(),
{
    if pos + 4 > s.len() {
        None
    } else {
        let len = spec_u32_from_le_bytes(s.subrange(pos, pos + 4)) as int;
        if pos + 4 + len > s.len() {
            None
        } else {
            Some((s.subrange(pos + 4, pos + 4 + len), pos + 4 + len))
        }
    }
}

/// Splits a log-entry payload into the transaction key and the packed
/// transaction bytes.
pub open spec fn spec_entry_of(payload: Seq<u8>) -> (TransactionKey, Seq<u8>)
    recommends
        payload.len() >= 4,
{
    (spec_u32_from_le_bytes(payload.subrange(0, 4)), payload.skip(4))
}

/// Reads log entries from `pos` until the first absent chunk or the first
/// chunk too short to carry a key; such a chunk is dropped and ends the log.
pub open spec fn spec_parse_entries(s: Seq<u8>, pos: int) -> Seq<(TransactionKey, Seq<u8>)>
    recommends
        0 <= pos <= s.len(),
    decreases s.len() - pos,
{
    match spec_read_chunk(s, pos) {
        None => Seq::empty(),
        Some((payload, end)) => if payload.len() < 4 {
            Seq::empty()
        } else {
            seq![spec_entry_of(payload)] + spec_parse_entries(s, end)
        },
    }
}

/// Loads a whole file image: the first chunk is the snapshot, the rest is the
/// log. `None` when even the snapshot chunk is malformed or absent.
pub open spec fn spec_load(s: Seq<u8>) -> Option<(Seq<u8>, Seq<(TransactionKey, Seq<u8>)>)> {
    match spec_read_chunk(s, 0) {
        None => None,
        Some((snapshot, end)) => Some((snapshot, spec_parse_entries(s, end))),
    }
}

/// Whether every entry's packed transaction bytes, together with its 4-byte
/// key, fit a chunk's 4-byte length prefix.
pub open spec fn spec_entries_fit(entries: Seq<(TransactionKey, Seq<u8>)>) -> bool {
    forall|i: int| 0 <= i < entries.len() ==> (#[trigger] entries[i]).1.len() + 4 <= u32::MAX
}

/// Reading entries from the end of the snapshot chunk recovers exactly the
/// entries whose bytes follow it: parsing `head + entries bytes` from
/// `head.len()` yields `entries`.
proof fn lemma_parse_entries_of_bytes(head: Seq<u8>, entries: Seq<(TransactionKey, Seq<u8>)>)
    requires
        spec_entries_fit(entries),
    ensures
        spec_parse_entries(head + spec_entries_bytes(entries), head.len() as int) == entries,
    decreases entries.len(),
{
    lemma_auto_spec_u32_to_from_le_bytes();
    let s = head + spec_entries_bytes(entries);
    let pos = head.len() as int;
    if entries.len() == 0 {
        assert(s =~= head);
        assert(spec_parse_entries(s, pos) == Seq::<(TransactionKey, Seq<u8>)>::empty());
    } else {
        let key = entries[0].0;
        let data = entries[0].1;
        let payload = spec_u32_to_le_bytes(key) + data;
        let chunk = spec_entry_chunk(key, data);
        let rest = entries.drop_first();
        assert(entries[0].1.len() + 4 <= u32::MAX);
        assert(chunk == spec_u32_to_le_bytes(payload.len() as u32) + payload);
        assert(s.subrange(pos, pos + 4) =~= spec_u32_to_le_bytes(payload.len() as u32));
        assert(spec_u32_from_le_bytes(s.subrange(pos, pos + 4)) == payload.len() as u32);
        assert(s.subrange(pos + 4, pos + 4 + payload.len()) =~= payload);
        assert(spec_read_chunk(s, pos) == Some((payload, pos + 4 + payload.len())));
        assert(payload.subrange(0, 4) =~= spec_u32_to_le_bytes(key));
        assert(payload.skip(4) =~= data);
        assert(spec_entry_of(payload) == (key, data));
        lemma_parse_entries_of_bytes(head + chunk, rest);
        assert((head + chunk) + spec_entries_bytes(rest) =~= s);
        assert(spec_parse_entries(s, pos + 4 + payload.len()) == rest);
        assert(seq![(key, data)] + rest =~= entries);
    }
}

/// Round trip of the framing: loading the byte image of a snapshot and a
/// sequence of log entries yields exactly that snapshot and those entries,
/// whatever bytes they hold.
pub proof fn lemma_load_of_file_bytes(snapshot: Seq<u8>, entries: Seq<(TransactionKey, Seq<u8>)>)
    requires
        snapshot.len() <= u32::MAX,
        spec_entries_fit(entries),
    ensures
        spec_load(spec_file_bytes(snapshot, entries)) == Some((snapshot, entries)),
{
    lemma_auto_spec_u32_to_from_le_bytes();
    let s = spec_file_bytes(snapshot, entries);
    let head = spec_chunk(snapshot);
    assert(s.subrange(0, 4) =~= spec_u32_to_le_bytes(snapshot.len() as u32));
    assert(spec_u32_from_le_bytes(s.subrange(0, 4)) == snapshot.len() as u32);
    assert(s.subrange(4, 4 + snapshot.len() as int) =~= snapshot);
    assert(spec_read_chunk(s, 0) == Some((snapshot, 4 + snapshot.len() as int)));
    lemma_parse_entries_of_bytes(head, entries);
    assert(head.len() == 4 + snapshot.len());
}

/// Round trip of a snapshot alone: loading the byte image of a snapshot
/// chunk with no log yields that snapshot and an empty log, so a freshly
/// initialized store reads back exactly what it wrote.
pub proof fn lemma_load_of_snapshot(snapshot: Seq<u8>)
    requires
        snapshot.len() <= u32::MAX,
    ensures
        spec_load(spec_chunk(snapshot)) == Some((snapshot, Seq::<(TransactionKey, Seq<u8>)>::empty())),
{
    let entries = Seq::<(TransactionKey, Seq<u8>)>::empty();
    lemma_load_of_file_bytes(snapshot, entries);
    assert(spec_file_bytes(snapshot, entries) =~= spec_chunk(snapshot));
}

/// Reading entries from a truncated file stops exactly at the last intact
/// entry: when the first `k` entries' bytes fit within the first `m` bytes
/// but the `k+1`th entry's do not, parsing the truncation recovers exactly
/// the first `k` entries.
proof fn lemma_parse_entries_truncated(
    head: Seq<u8>,
    entries: Seq<(TransactionKey, Seq<u8>)>,
    k: int,
    m: int,
)
    requires
        spec_entries_fit(entries),
        0 <= k <= entries.len(),
        head.len() + spec_entries_bytes(entries.take(k)).len() <= m,
        k < entries.len() ==> m < head.len() + spec_entries_bytes(entries.take(k + 1)).len(),
        m <= head.len() + spec_entries_bytes(entries).len(),
    ensures
        spec_parse_entries(
            (head + spec_entries_bytes(entries)).take(m),
            head.len() as int,
        ) == entries.take(k),
    decreases entries.len(),
{
    lemma_auto_spec_u32_to_from_le_bytes();
    let s = head + spec_entries_bytes(entries);
    let t = s.take(m);
    let pos = head.len() as int;
    assert(spec_entries_bytes(entries.take(0)) =~= Seq::<u8>::empty());
    if entries.len() == 0 {
        assert(t.len() == pos);
        assert(entries.take(k) =~= Seq::<(TransactionKey, Seq<u8>)>::empty());
    } else {
        let key = entries[0].0;
        let data = entries[0].1;
        let payload = spec_u32_to_le_bytes(key) + data;
        let chunk = spec_entry_chunk(key, data);
        let rest = entries.drop_first();
        assert(entries[0].1.len() + 4 <= u32::MAX);
        assert(chunk == spec_u32_to_le_bytes(payload.len() as u32) + payload);
        assert(spec_entries_bytes(Seq::<(TransactionKey, Seq<u8>)>::empty()) == Seq::<u8>::empty());
        assert(entries.take(1).len() == 1);
        assert(entries.take(1).drop_first() =~= Seq::<(TransactionKey, Seq<u8>)>::empty());
        assert(entries.take(1)[0] == entries[0]);
        assert(spec_entries_bytes(entries.take(1)) == chunk + Seq::<u8>::empty());
        if k == 0 {
            assert(m < pos + 4 + payload.len());
            if m - pos < 4 {
                assert(spec_read_chunk(t, pos) is None);
            } else {
                assert(t.subrange(pos, pos + 4) =~= spec_u32_to_le_bytes(payload.len() as u32));
                assert(spec_u32_from_le_bytes(t.subrange(pos, pos + 4)) == payload.len() as u32);
                assert(spec_read_chunk(t, pos) is None);
            }
            assert(entries.take(0) =~= Seq::<(TransactionKey, Seq<u8>)>::empty());
        } else {
            assert(entries.take(k)[0] == entries[0]);
            assert(entries.take(k).drop_first() =~= rest.take(k - 1));
            assert(spec_entries_bytes(entries.take(k)) == chunk + spec_entries_bytes(
                rest.take(k - 1),
            ));
            assert(pos + 4 + payload.len() <= m);
            assert(t.subrange(pos, pos + 4) =~= spec_u32_to_le_bytes(payload.len() as u32));
            assert(spec_u32_from_le_bytes(t.subrange(pos, pos + 4)) == payload.len() as u32);
            assert(t.subrange(pos + 4, pos + 4 + payload.len()) =~= payload);
            assert(spec_read_chunk(t, pos) == Some((payload, pos + 4 + payload.len())));
            assert(payload.subrange(0, 4) =~= spec_u32_to_le_bytes(key));
            assert(payload.skip(4) =~= data);
            assert(spec_entry_of(payload) == (key, data));
            assert forall|i: int| 0 <= i < rest.len() implies (#[trigger] rest[i]).1.len() + 4
                <= u32::MAX by {
                assert(rest[i] == entries[i + 1]);
            }
            if k < entries.len() {
                assert(entries.take(k + 1)[0] == entries[0]);
                assert(entries.take(k + 1).drop_first() =~= rest.take(k));
                assert(spec_entries_bytes(entries.take(k + 1)) == chunk + spec_entries_bytes(
                    rest.take(k),
                ));
            }
            lemma_parse_entries_truncated(head + chunk, rest, k - 1, m);
            assert((head + chunk) + spec_entries_bytes(rest) =~= s);
            assert(spec_parse_entries(t, pos + 4 + payload.len()) == rest.take(k - 1));
            assert(seq![(key, data)] + rest.take(k - 1) =~= entries.take(k));
        }
    }
}

/// Corruption tolerance of the snapshot: a file truncated anywhere inside
/// its snapshot chunk, in the header or in the payload, loads as no object
/// at all, never as a different object and never as an error.
pub proof fn lemma_load_of_truncated_snapshot(
    snapshot: Seq<u8>,
    entries: Seq<(TransactionKey, Seq<u8>)>,
    m: int,
)
    requires
        snapshot.len() <= u32::MAX,
        spec_entries_fit(entries),
        0 <= m < spec_chunk(snapshot).len(),
    ensures
        spec_load(spec_file_bytes(snapshot, entries).take(m)) is None,
{
    lemma_auto_spec_u32_to_from_le_bytes();
    let s = spec_file_bytes(snapshot, entries);
    let t = s.take(m);
    if m >= 4 {
        assert(t.subrange(0, 4) =~= spec_u32_to_le_bytes(snapshot.len() as u32));
        assert(spec_u32_from_le_bytes(t.subrange(0, 4)) == snapshot.len() as u32);
        assert(4 + snapshot.len() > m);
    }
}

/// Corruption tolerance of the log: a file truncated after its snapshot
/// chunk, at or past the end of its first `k` entries but short of the end
/// of the `k+1`th, loads as the snapshot and exactly the first `k` entries:
/// the log is cut at the last fully-intact entry, never mid-entry and never
/// as an error.
pub proof fn lemma_load_of_truncated_file(
    snapshot: Seq<u8>,
    entries: Seq<(TransactionKey, Seq<u8>)>,
    k: int,
    m: int,
)
    requires
        snapshot.len() <= u32::MAX,
        spec_entries_fit(entries),
        0 <= k <= entries.len(),
        spec_file_bytes(snapshot, entries.take(k)).len() <= m,
        k < entries.len() ==> m < spec_file_bytes(snapshot, entries.take(k + 1)).len(),
        m <= spec_file_bytes(snapshot, entries).len(),
    ensures
        spec_load(spec_file_bytes(snapshot, entries).take(m)) == Some((snapshot, entries.take(k))),
{
    lemma_auto_spec_u32_to_from_le_bytes();
    let s = spec_file_bytes(snapshot, entries);
    let t = s.take(m);
    let head = spec_chunk(snapshot);
    assert(m >= head.len());
    assert(t.subrange(0, 4) =~= spec_u32_to_le_bytes(snapshot.len() as u32));
    assert(spec_u32_from_le_bytes(t.subrange(0, 4)) == snapshot.len() as u32);
    assert(t.subrange(4, 4 + snapshot.len() as int) =~= snapshot);
    assert(spec_read_chunk(t, 0) == Some((snapshot, 4 + snapshot.len() as int)));
    lemma_parse_entries_truncated(head, entries, k, m);
    assert(head.len() == 4 + snapshot.len());
}

/// Emits the 4-byte little-endian length prefix followed by the payload.
/// `None` exactly when the payload is too long for the 4-byte length.
pub fn encode_chunk(payload: &Vec<u8>) -> (r: Option<Vec<u8>>)
    ensures
        payload@.len() <= u32::MAX ==> (r matches Some(b) && b@ == spec_chunk(payload@)),
        payload@.len() > u32::MAX ==> r is None,
{
    proof {
        lemma_auto_spec_u32_to_from_le_bytes();
    }
    if payload.len() > u32::MAX as usize {
        return None;
    }
    let mut out = u32_to_le_bytes(payload.len() as u32);
    let mut i: usize = 0;
    while i < payload.len()
        invariant
            i <= payload@.len(),
            out@ == spec_u32_to_le_bytes(payload@.len() as u32) + payload@.subrange(0, i as int),
        decreases payload@.len() - i,
    {
        out.push(payload[i]);
        proof {
            assert(payload@.subrange(0, i + 1) == payload@.subrange(0, i as int).push(
                payload@[i as int],
            ));
        }
        i = i + 1;
    }
    proof {
        assert(payload@.subrange(0, payload@.len() as int) == payload@);
    }
    Some(out)
}

/// Emits one log-entry chunk for `key` and the packed transaction bytes.
/// `None` exactly when key plus payload are too long for the 4-byte length.
pub fn encode_log_entry(key: TransactionKey, data: &Vec<u8>) -> (r: Option<Vec<u8>>)
    ensures
        data@.len() + 4 <= u32::MAX ==> (r matches Some(b) && b@ == spec_entry_chunk(key, data@)),
        data@.len() + 4 > u32::MAX ==> r is None,
{
    proof {
        lemma_auto_spec_u32_to_from_le_bytes();
    }
    if data.len() > (u32::MAX - 4) as usize {
        return None;
    }
    let mut payload = u32_to_le_bytes(key);
    let mut i: usize = 0;
    while i < data.len()
        invariant
            i <= data@.len(),
            payload@ == spec_u32_to_le_bytes(key) + data@.subrange(0, i as int),
        decreases data@.len() - i,
    {
        payload.push(data[i]);
        proof {
            assert(data@.subrange(0, i + 1) == data@.subrange(0, i as int).push(data@[i as int]));
        }
        i = i + 1;
    }
    proof {
        assert(data@.subrange(0, data@.len() as int) == data@);
    }
    encode_chunk(&payload)
}

/// Reads one chunk of `data` starting at `pos`, as `spec_read_chunk` does.
pub fn read_chunk(data: &Vec<u8>, pos: usize) -> (r: Option<(Vec<u8>, usize)>)
    requires
        pos <= data@.len(),
    ensures
        r matches Some(p) ==> spec_read_chunk(data@, pos as int) == Some((p.0@, p.1 as int))
            && pos < p.1 <= data@.len(),
        r is None ==> spec_read_chunk(data@, pos as int) is None,
{
    if data.len() - pos < 4 {
        return None;
    }
    let len = u32_from_le_bytes(slice_subrange(data.as_slice(), pos, pos + 4)) as usize;
    if len > data.len() - (pos + 4) {
        return None;
    }
    let payload = slice_to_vec(slice_subrange(data.as_slice(), pos + 4, pos + 4 + len));
    Some((payload, pos + 4 + len))
}

/// Splits one log-entry chunk payload into its key and transaction bytes, as
/// `spec_entry_of` does; `None` when the payload is too short to carry a key.
pub fn split_entry(payload: &Vec<u8>) -> (r: Option<PackedTransaction>)
    ensures
        payload@.len() >= 4 ==> (r matches Some(t) && t@ == spec_entry_of(payload@)),
        payload@.len() < 4 ==> r is None,
{
    if payload.len() < 4 {
        return None;
    }
    let key = u32_from_le_bytes(slice_subrange(payload.as_slice(), 0, 4));
    let data = slice_to_vec(slice_subrange(payload.as_slice(), 4, payload.len()));
    proof {
        assert(payload@.subrange(4, payload@.len() as int) == payload@.skip(4));
    }
    Some(PackedTransaction(key, data))
}

/// Parses a whole file image, as `spec_load` does: the snapshot chunk, then
/// log entries until the first malformed or incomplete chunk.
pub fn parse_file(data: &Vec<u8>) -> (r: Option<(PackedObject, Vec<PackedTransaction>)>)
    ensures
        r matches Some(p) ==> spec_load(data@) == Some((p.0@, spec_txs(p.1@))),
        r is None ==> spec_load(data@) is None,
{
    let snapshot = match read_chunk(data, 0) {
        Some(p) => p,
        None => {
            return None;
        },
    };
    let mut entries: Vec<PackedTransaction> = Vec::new();
    let mut pos: usize = snapshot.1;
    proof {
        assert(spec_txs(entries@) + spec_parse_entries(data@, pos as int) =~= spec_parse_entries(
            data@,
            pos as int,
        ));
    }
    loop
        invariant
            pos <= data@.len(),
            spec_load(data@) == Some(
                (snapshot.0@, spec_txs(entries@) + spec_parse_entries(data@, pos as int)),
            ),
        ensures
            spec_load(data@) == Some((snapshot.0@, spec_txs(entries@))),
        decreases data@.len() - pos,
    {
        let end_of_log: bool = match read_chunk(data, pos) {
            Some(chunk) => match split_entry(&chunk.0) {
                Some(entry) => {
                    proof {
                        assert(spec_txs(entries@.push(entry)) =~= spec_txs(entries@).push(entry@));
                        assert(spec_txs(entries@).push(entry@) + spec_parse_entries(
                            data@,
                            chunk.1 as int,
                        ) =~= spec_txs(entries@) + (seq![spec_entry_of(chunk.0@)]
                            + spec_parse_entries(data@, chunk.1 as int)));
                    }
                    entries.push(entry);
                    pos = chunk.1;
                    false
                },
                None => true,
            },
            None => true,
        };
        if end_of_log {
            proof {
                assert(spec_txs(entries@) + spec_parse_entries(data@, pos as int) =~= spec_txs(
                    entries@,
                ));
            }
            break ;
        }
    }
    Some((PackedObject(snapshot.0), entries))
}

} // verus!

