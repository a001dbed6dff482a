//! ORES resources: a table from resource identifiers to strings, and a
//! variant that holds a JSON document framed by a fixed 36-byte header and a
//! fixed 17-byte footer.

use vstd::prelude::*;
use vstd::utf8::{decode_utf8, encode_utf8, valid_utf8};
use indexmap::IndexMap;
use std::hash::RandomState;
use crate::bytes::{read_u32_le, spec_u32_le, spec_zeros};
use crate::refs::RuntimeID;
use crate::bytes::{push_u32_le, spec_u32_bytes};
use crate::encode::push_bytes;
use crate::node::string_from_utf8;

verus! {

/// Why an ORES resource could not be read or written.
#[derive(Debug, PartialEq)]
pub enum OresError {
    /// The data is shorter than its header and footer.
    Truncated,
    /// A length does not fit the format's signed 32-bit fields.
    InvalidNumber,
    /// A string is not valid UTF-8.
    InvalidString,
    /// A table must hold at least one entry.
    ValuesEmpty,
}

/// The length of the header before the document.
pub const JSON_ORES_HEADER_LEN: usize = 36;

/// The length of the footer after the document.
pub const JSON_ORES_FOOTER_LEN: usize = 17;

/// The four big-endian bytes of `v`.
pub open spec fn spec_u32_be_bytes(v: u32) -> Seq<u8> {
    spec_u32_bytes(v).reverse()
}

/// The bytes that follow the document.
pub open spec fn spec_json_ores_footer() -> Seq<u8> {
    seq![0x00u8, 0xED, 0xA5, 0xEB, 0x12, 0x08, 0x00, 0x00, 0x00, 0x01, 0x00, 0x00, 0x00, 0x08, 0x00, 0x00, 0x00]
}

/// The framing of a document of `n` bytes.
pub open spec fn spec_json_ores_header(n: u32) -> Seq<u8> {
    seq![0x42u8, 0x49, 0x4E, 0x31, 0x00, 0x08, 0x01, 0x00] + spec_u32_be_bytes((n + 21) as u32) + spec_u32_bytes(0)
        + spec_u32_bytes(n | 0x4000_0000) + seq![0x00u8, 0x00, 0x00, 0x00, 0x14, 0x00, 0x00, 0x00, 0x00, 0x00, 0x00, 0x00]
        + spec_u32_bytes((n + 1) as u32)
}

/// The document that a JSON ORES resource holds: the text between its
/// header and its footer.
pub open spec fn spec_parse_json_ores(b: Seq<u8>) -> Result<Seq<char>, OresError> {
    if b.len() < 53 {
        Err(OresError::Truncated)
    } else if !valid_utf8(b.subrange(36, b.len() - 17)) {
        Err(OresError::InvalidString)
    } else {
        Ok(decode_utf8(b.subrange(36, b.len() - 17)))
    }
}

/// Reads the JSON document of an ORES resource.
pub fn parse_json_ores(bin_data: &[u8]) -> (r: Result<String, OresError>)
    ensures
        r matches Ok(s) ==> spec_parse_json_ores(bin_data@) == Ok::<Seq<char>, OresError>(s@),
        r matches Err(e) ==> spec_parse_json_ores(bin_data@) == Err::<Seq<char>, OresError>(e),
{
    let len = bin_data.len();
    if len < 53 {
        return Err(OresError::Truncated);
    }
    let mut text: Vec<u8> = Vec::new();
    let mut i: usize = 36;
    while i < len - 17
        invariant
            36 <= i <= len - 17,
            len == bin_data@.len(),
            len >= 53,
            text@ == bin_data@.subrange(36, i as int),
        decreases len - 17 - i,
    {
        text.push(bin_data[i]);
        i = i + 1;
        assert(text@ =~= bin_data@.subrange(36, i as int));
    }
    match string_from_utf8(text) {
        Some(s) => Ok(s),
        None => Err(OresError::InvalidString),
    }
}

/// Appends the four big-endian bytes of `v`.
fn push_u32_be(out: &mut Vec<u8>, v: u32)
    ensures
        final(out)@ == old(out)@ + spec_u32_be_bytes(v),
{
    out.push((v >> 24) as u8);
    out.push(((v >> 16) & 0xff) as u8);
    out.push(((v >> 8) & 0xff) as u8);
    out.push((v & 0xff) as u8);
    assert(final(out)@ =~= old(out)@ + spec_u32_be_bytes(v));
}

/// Frames a JSON document as an ORES resource. A document whose length plus
/// 21 does not fit in a signed 32-bit field is an `InvalidNumber` error.
pub fn serialise_json_ores(data: &str) -> (r: Result<Vec<u8>, OresError>)
    ensures
        r is Err <==> encode_utf8(data@).len() + 21 > i32::MAX,
        r matches Err(e) ==> e == OresError::InvalidNumber,
        r matches Ok(b) ==> b@ == spec_json_ores_header(encode_utf8(data@).len() as u32) + encode_utf8(data@)
            + spec_json_ores_footer(),
{
    let bytes = data.as_bytes();
    if bytes.len() > (i32::MAX - 21) as usize {
        return Err(OresError::InvalidNumber);
    }
    let n = bytes.len() as u32;
    let mut out: Vec<u8> = Vec::new();
    let magic: [u8; 8] = [0x42, 0x49, 0x4E, 0x31, 0x00, 0x08, 0x01, 0x00];
    push_bytes(&mut out, &magic);
    push_u32_be(&mut out, n + 21);
    push_u32_le(&mut out, 0);
    push_u32_le(&mut out, n | 0x4000_0000);
    let middle: [u8; 12] = [0x00, 0x00, 0x00, 0x00, 0x14, 0x00, 0x00, 0x00, 0x00, 0x00, 0x00, 0x00];
    push_bytes(&mut out, &middle);
    push_u32_le(&mut out, n + 1);
    assert(out@ =~= spec_json_ores_header(n));
    push_bytes(&mut out, bytes);
    let footer: [u8; 17] = [0x00, 0xED, 0xA5, 0xEB, 0x12, 0x08, 0x00, 0x00, 0x00, 0x01, 0x00, 0x00, 0x00, 0x08, 0x00, 0x00, 0x00];
    push_bytes(&mut out, &footer);
    assert(out@ =~= spec_json_ores_header(n) + encode_utf8(data@) + spec_json_ores_footer());
    Ok(out)
}

/// Reading back a framed document gives the document.
pub proof fn lemma_json_ores_round_trip(s: Seq<char>)
    requires
        encode_utf8(s).len() + 21 <= i32::MAX,
    ensures
        spec_parse_json_ores(spec_json_ores_header(encode_utf8(s).len() as u32) + encode_utf8(s) + spec_json_ores_footer())
            == Ok::<Seq<char>, OresError>(s),
{
    let t = encode_utf8(s);
    let b = spec_json_ores_header(t.len() as u32) + t + spec_json_ores_footer();
    assert(b.subrange(36, b.len() - 17) =~= t);
    vstd::utf8::encode_utf8_valid_utf8(s);
    vstd::utf8::encode_utf8_decode_utf8(s);
}

/// The entries of a hash table, in their order.
pub uninterp spec fn hash_entries(m: IndexMap<RuntimeID, String, RandomState>) -> Seq<(RuntimeID, String)>;

/// The entries with their strings as characters.
pub open spec fn spec_hash_view(s: Seq<(RuntimeID, String)>) -> Seq<(RuntimeID, Seq<char>)> {
    Seq::new(s.len(), |i: int| (s[i].0, s[i].1@))
}

/// The entries after inserting `(k, v)`: an entry with key `k` keeps its
/// place and takes the value `v`; otherwise the pair goes last.
pub open spec fn spec_hash_insert(s: Seq<(RuntimeID, Seq<char>)>, k: RuntimeID, v: Seq<char>) -> Seq<
    (RuntimeID, Seq<char>),
> {
    if exists|i: int| 0 <= i < s.len() && s[i].0 == k {
        let i = choose|i: int| 0 <= i < s.len() && s[i].0 == k;
        s.update(i, (k, v))
    } else {
        s.push((k, v))
    }
}

/// Relies on `IndexMap::new`: a new map is empty.
#[verifier::external_body]
fn new_hash_map() -> (m: IndexMap<RuntimeID, String, RandomState>)
    ensures
        hash_entries(m) == Seq::<(RuntimeID, String)>::empty(),
{
    IndexMap::new()
}

/// Relies on `IndexMap::insert`: where an equal key is present it keeps its
/// place and takes the new value, otherwise the pair is appended.
#[verifier::external_body]
fn insert_hash(m: &mut IndexMap<RuntimeID, String, RandomState>, k: RuntimeID, v: String)
    ensures
        spec_hash_view(hash_entries(*final(m))) == spec_hash_insert(spec_hash_view(hash_entries(*old(m))), k, v@),
{
    m.insert(k, v);
}

/// Relies on `IndexMap::iter`: it visits the entries in their order.
#[verifier::external_body]
fn hash_entries_of(m: &IndexMap<RuntimeID, String, RandomState>) -> (r: Vec<(RuntimeID, String)>)
    ensures
        spec_hash_view(r@) == spec_hash_view(hash_entries(*m)),
{
    m.iter().map(|(k, v)| (*k, v.clone())).collect()
}

/// Whether a stored 32-bit field, read as a signed integer, is negative.
pub open spec fn spec_negative(v: u32) -> bool {
    v >= 0x8000_0000
}

/// The big-endian `u32` stored at `off` in `s`.
pub open spec fn spec_u32_be(s: Seq<u8>, off: int) -> u32 {
    (s[off] as int * 0x100_0000 + s[off + 1] as int * 0x1_0000 + s[off + 2] as int * 0x100 + s[off + 3] as int) as u32
}

/// Reads the big-endian `u32` at `off`.
fn read_u32_be(data: &[u8], off: usize) -> (r: u32)
    requires
        off + 4 <= data@.len(),
    ensures
        r == spec_u32_be(data@, off as int),
{
    (data[off] as u32) * 0x100_0000 + (data[off + 1] as u32) * 0x1_0000 + (data[off + 2] as u32) * 0x100
        + (data[off + 3] as u32)
}

/// The `u32` at `pos` if it lies within `b`.
pub open spec fn spec_u32_at(b: Seq<u8>, pos: int) -> Option<u32> {
    if 0 <= pos && pos + 4 <= b.len() {
        Some(spec_u32_le(b, pos))
    } else {
        None
    }
}

/// The identifier stored as two little-endian halves at `pos`, the high
/// half first.
pub open spec fn spec_hash_at(b: Seq<u8>, pos: int) -> RuntimeID {
    RuntimeID((spec_u32_le(b, pos) as int * 0x1_0000_0000 + spec_u32_le(b, pos + 4) as int) as u64)
}

/// The first `n` offsets of the offset table at `pos`.
pub open spec fn spec_offsets(b: Seq<u8>, pos: int, n: nat) -> Option<Seq<u32>>
    decreases n,
{
    if n == 0 {
        Some(Seq::empty())
    } else {
        match spec_offsets(b, pos, (n - 1) as nat) {
            None => None,
            Some(s) => match spec_u32_at(b, pos + 4 * (n - 1)) {
                None => None,
                Some(v) => Some(s.push(v)),
            },
        }
    }
}

/// The identifier and string of the entry whose descriptor is at `off + 16`.
pub open spec fn spec_hash_item(b: Seq<u8>, off: u32) -> Result<(RuntimeID, Seq<char>), OresError> {
    if spec_negative(off) && off as int - 0x1_0000_0000 + 16 < 0 {
        Err(OresError::InvalidNumber)
    } else {
        let o = if spec_negative(off) { off as int - 0x1_0000_0000 + 16 } else { off as int + 16 };
        match spec_u32_at(b, o) {
            None => Err(OresError::Truncated),
            Some(d) => if o + 16 > b.len() {
                Err(OresError::Truncated)
            } else {
                let h = spec_hash_at(b, o + 8);
                if spec_negative(d) && d as int - 0x1_0000_0000 + 12 < 0 {
                    Err(OresError::InvalidNumber)
                } else {
                    let q = if spec_negative(d) { d as int - 0x1_0000_0000 + 12 } else { d as int + 12 };
                    match spec_u32_at(b, q) {
                        None => Err(OresError::Truncated),
                        Some(len) => if len == 0 || spec_negative(len) {
                            Err(OresError::InvalidNumber)
                        } else if q + 4 + len - 1 > b.len() {
                            Err(OresError::Truncated)
                        } else if !valid_utf8(b.subrange(q + 4, q + 4 + len - 1)) {
                            Err(OresError::InvalidString)
                        } else {
                            Ok((h, decode_utf8(b.subrange(q + 4, q + 4 + len - 1))))
                        },
                    }
                }
            },
        }
    }
}

/// The entries from offset `i` on, inserted one by one into `acc`.
pub open spec fn spec_hash_items(b: Seq<u8>, offs: Seq<u32>, i: int, acc: Seq<(RuntimeID, Seq<char>)>) -> Result<
    Seq<(RuntimeID, Seq<char>)>,
    OresError,
>
    decreases offs.len() - i,
{
    if i < 0 || i >= offs.len() {
        Ok(acc)
    } else {
        match spec_hash_item(b, offs[i]) {
            Err(e) => Err(e),
            Ok((h, v)) => spec_hash_items(b, offs, i + 1, spec_hash_insert(acc, h, v)),
        }
    }
}

/// The table that a hash ORES resource holds. The offset table follows the
/// strings; its first three offsets are not entries.
pub open spec fn spec_parse_hashes_ores(b: Seq<u8>) -> Result<Seq<(RuntimeID, Seq<char>)>, OresError> {
    if b.len() < 12 {
        Err(OresError::Truncated)
    } else {
        let end = spec_u32_be(b, 8);
        if spec_negative(end) {
            Err(OresError::InvalidNumber)
        } else {
            match spec_u32_at(b, end + 24) {
                None => Err(OresError::Truncated),
                Some(n) => {
                    let count: nat = if spec_negative(n) { 0 } else { n as nat };
                    match spec_offsets(b, end + 28, count) {
                        None => Err(OresError::Truncated),
                        Some(offs) => spec_hash_items(b, offs, 3, Seq::empty()),
                    }
                },
            }
        }
    }
}

/// Reads the `u32` at `pos`, where `pos` may lie outside the data.
fn u32_at(b: &[u8], pos: u64) -> (r: Option<u32>)
    ensures
        r == spec_u32_at(b@, pos as int),
{
    let len = b.len() as u64;
    if pos <= len && len - pos >= 4 {
        Some(read_u32_le(b, pos as usize))
    } else {
        None
    }
}

/// Reads the entry whose descriptor is at `off + 16`.
fn hash_item(b: &[u8], off: u32) -> (r: Result<(RuntimeID, String), OresError>)
    ensures
        r matches Ok((h, v)) ==> spec_hash_item(b@, off) == Ok::<(RuntimeID, Seq<char>), OresError>((h, v@)),
        r matches Err(e) ==> spec_hash_item(b@, off) == Err::<(RuntimeID, Seq<char>), OresError>(e),
{
    let len = b.len() as u64;
    let o: u64 = if off >= 0x8000_0000 {
        if (off as u64) + 16 < 0x1_0000_0000 {
            return Err(OresError::InvalidNumber);
        }
        (off as u64) + 16 - 0x1_0000_0000
    } else {
        off as u64 + 16
    };
    let d = match u32_at(b, o) {
        Some(d) => d,
        None => {
            return Err(OresError::Truncated);
        },
    };
    if o + 16 > len {
        return Err(OresError::Truncated);
    }
    let hi = read_u32_le(b, (o + 8) as usize);
    let lo = read_u32_le(b, (o + 12) as usize);
    let h = RuntimeID((hi as u64) * 0x1_0000_0000 + (lo as u64));
    let q: u64 = if d >= 0x8000_0000 {
        if (d as u64) + 12 < 0x1_0000_0000 {
            return Err(OresError::InvalidNumber);
        }
        (d as u64) + 12 - 0x1_0000_0000
    } else {
        d as u64 + 12
    };
    let n = match u32_at(b, q) {
        Some(n) => n,
        None => {
            return Err(OresError::Truncated);
        },
    };
    if n == 0 || n >= 0x8000_0000 {
        return Err(OresError::InvalidNumber);
    }
    if q + 4 + (n as u64) - 1 > len {
        return Err(OresError::Truncated);
    }
    let start = (q + 4) as usize;
    let stop = start + (n - 1) as usize;
    let mut text: Vec<u8> = Vec::new();
    let mut i = start;
    while i < stop
        invariant
            start <= i <= stop,
            stop <= b@.len(),
            text@ == b@.subrange(start as int, i as int),
        decreases stop - i,
    {
        text.push(b[i]);
        i = i + 1;
        assert(text@ =~= b@.subrange(start as int, i as int));
    }
    match string_from_utf8(text) {
        Some(v) => Ok((h, v)),
        None => Err(OresError::InvalidString),
    }
}

proof fn lemma_offsets_none_stays(b: Seq<u8>, pos: int, i: nat, n: nat)
    requires
        i <= n,
        spec_offsets(b, pos, i) is None,
    ensures
        spec_offsets(b, pos, n) is None,
    decreases n - i,
{
    if i < n {
        lemma_offsets_none_stays(b, pos, i, (n - 1) as nat);
    }
}

/// Reads a hash ORES resource: its table of identifiers and strings, in the
/// order of its offset table. An identifier that repeats keeps its first
/// place and takes its last string.
pub fn parse_hashes_ores(bin_data: &[u8]) -> (r: Result<IndexMap<RuntimeID, String>, OresError>)
    ensures
        r matches Ok(m) ==> spec_parse_hashes_ores(bin_data@) == Ok::<Seq<(RuntimeID, Seq<char>)>, OresError>(
            spec_hash_view(hash_entries(m)),
        ),
        r matches Err(e) ==> spec_parse_hashes_ores(bin_data@) == Err::<Seq<(RuntimeID, Seq<char>)>, OresError>(e),
{
    if bin_data.len() < 12 {
        return Err(OresError::Truncated);
    }
    let end = read_u32_be(bin_data, 8);
    if end >= 0x8000_0000 {
        return Err(OresError::InvalidNumber);
    }
    let n = match u32_at(bin_data, end as u64 + 24) {
        Some(n) => n,
        None => {
            return Err(OresError::Truncated);
        },
    };
    let count: u32 = if n >= 0x8000_0000 { 0 } else { n };
    let base = end as u64 + 28;
    let mut offsets: Vec<u32> = Vec::new();
    let mut k: u32 = 0;
    while k < count
        invariant
            k <= count,
            base == end as u64 + 28,
            end < 0x8000_0000,
            spec_offsets(bin_data@, base as int, k as nat) == Some(offsets@),
            spec_parse_hashes_ores(bin_data@) == match spec_offsets(bin_data@, base as int, count as nat) {
                None => Err(OresError::Truncated),
                Some(o) => spec_hash_items(bin_data@, o, 3, Seq::empty()),
            },
        decreases count - k,
    {
        match u32_at(bin_data, base + 4 * (k as u64)) {
            Some(v) => offsets.push(v),
            None => {
                proof {
                    lemma_offsets_none_stays(bin_data@, base as int, (k + 1) as nat, count as nat);
                }
                return Err(OresError::Truncated);
            },
        }
        k = k + 1;
    }
    let ghost offs = offsets@;
    let mut table = new_hash_map();
    let mut i: usize = 3;
    assert(spec_hash_view(hash_entries(table)) =~= Seq::<(RuntimeID, Seq<char>)>::empty());
    while i < offsets.len()
        invariant
            3 <= i,
            offs == offsets@,
            spec_parse_hashes_ores(bin_data@) == spec_hash_items(bin_data@, offs, i as int, spec_hash_view(hash_entries(table))),
        decreases offsets@.len() - i,
    {
        match hash_item(bin_data, offsets[i]) {
            Ok((h, v)) => insert_hash(&mut table, h, v),
            Err(e) => {
                return Err(e);
            },
        }
        i = i + 1;
    }
    Ok(table)
}

/// The zero bytes that bring a length of `k` to a multiple of four.
pub open spec fn spec_pad4(k: nat) -> nat {
    ((4 - k % 4) % 4) as nat
}

/// The UTF-8 bytes of each entry's string.
pub open spec fn spec_entry_bytes(e: Seq<(RuntimeID, Seq<char>)>, i: int) -> Seq<u8> {
    encode_utf8(e[i].1)
}

/// The room that the strings of the entries take, each with its length,
/// its terminator and its padding to four bytes.
pub open spec fn spec_strings_total(e: Seq<(RuntimeID, Seq<char>)>) -> nat
    decreases e.len(),
{
    if e.len() == 0 {
        0
    } else {
        let l = spec_entry_bytes(e, e.len() - 1).len();
        spec_strings_total(e.subrange(0, e.len() - 1)) + 4 + l + 1 + spec_pad4(l + 1)
    }
}

/// Where the strings start: after the 48-byte header and 24 bytes an entry.
pub open spec fn spec_strings_start(n: nat) -> nat {
    0x30 + 0x18 * n
}

/// Where the strings end: the last string is not padded.
pub open spec fn spec_strings_end(e: Seq<(RuntimeID, Seq<char>)>) -> int {
    spec_strings_start(e.len()) + spec_strings_total(e) - spec_pad4(spec_entry_bytes(e, e.len() - 1).len() + 1)
}

/// The eight bytes of an identifier: its high half, then its low half, each
/// little-endian.
pub open spec fn spec_hash_bytes(h: RuntimeID) -> Seq<u8> {
    spec_u32_bytes((h.0 / 0x1_0000_0000) as u32) + spec_u32_bytes((h.0 % 0x1_0000_0000) as u32)
}

/// The 24-byte descriptor of an entry whose string has `l` bytes and starts
/// `offset` bytes after the strings begin.
pub open spec fn spec_entry_descriptor(h: RuntimeID, l: nat, start: nat, offset: nat) -> Seq<u8> {
    spec_u32_bytes(l as u32).subrange(0, 3) + seq![0x40u8] + spec_u32_bytes(0) + spec_u32_bytes(
        (start - 12 + offset) as u32,
    ) + spec_u32_bytes(0) + spec_hash_bytes(h)
}

/// The descriptors of the entries.
pub open spec fn spec_descriptors(e: Seq<(RuntimeID, Seq<char>)>, start: nat) -> Seq<u8>
    decreases e.len(),
{
    if e.len() == 0 {
        Seq::empty()
    } else {
        let p = e.subrange(0, e.len() - 1);
        spec_descriptors(p, start) + spec_entry_descriptor(
            e[e.len() - 1].0,
            spec_entry_bytes(e, e.len() - 1).len(),
            start,
            spec_strings_total(p),
        )
    }
}

/// The strings of the entries: each with its length and terminator, padded
/// to four bytes before the next.
pub open spec fn spec_strings(e: Seq<(RuntimeID, Seq<char>)>) -> Seq<u8>
    decreases e.len(),
{
    if e.len() == 0 {
        Seq::empty()
    } else {
        let p = e.subrange(0, e.len() - 1);
        let l = spec_entry_bytes(e, e.len() - 1).len();
        let before = if p.len() == 0 {
            Seq::empty()
        } else {
            spec_strings(p) + spec_zeros(spec_pad4(spec_entry_bytes(p, p.len() - 1).len() + 1))
        };
        before + spec_u32_bytes((l + 1) as u32) + spec_entry_bytes(e, e.len() - 1) + seq![0u8]
    }
}

/// The offsets of the first `n` descriptors, as the offset table lists them.
pub open spec fn spec_descriptor_offsets(n: nat) -> Seq<u8>
    decreases n,
{
    if n == 0 {
        Seq::empty()
    } else {
        spec_descriptor_offsets((n - 1) as nat) + spec_u32_bytes((40 + 24 * (n - 1)) as u32)
    }
}

/// The bytes of a hash ORES resource holding the entries `e`.
pub open spec fn spec_hashes_ores_bytes(e: Seq<(RuntimeID, Seq<char>)>) -> Seq<u8> {
    let n = e.len();
    let start = spec_strings_start(n);
    let end = spec_strings_end(e);
    seq![0x42u8, 0x49, 0x4E, 0x31, 0x00, 0x08, 0x01, 0x00] + spec_u32_be_bytes((end - 0x10) as u32) + seq![
        0x00u8,
        0x00,
        0x00,
        0x00,
        0x20,
        0x00,
        0x00,
        0x00,
        0x00,
        0x00,
        0x00,
        0x00,
    ] + spec_u32_bytes((start - 0x10) as u32) + spec_u32_bytes(0) + spec_u32_bytes((start - 0x10) as u32)
        + spec_u32_bytes(0) + spec_u32_bytes(0)
        + spec_u32_bytes(n as u32) + spec_descriptors(e, start) + spec_strings(e) + seq![0xEDu8, 0xA5, 0xEB, 0x12]
        + spec_u32_bytes((4 + (n + 3) * 4) as u32) + spec_u32_bytes((n + 3) as u32) + seq![
        0x00u8,
        0x00,
        0x00,
        0x00,
        0x08,
        0x00,
        0x00,
        0x00,
        0x10,
        0x00,
        0x00,
        0x00,
    ] + spec_descriptor_offsets(n)
}

/// What serialising the entries `e` gives: an empty table is refused, and so
/// is one whose strings end past what a signed 32-bit field holds.
pub open spec fn spec_serialise_hashes_ores(e: Seq<(RuntimeID, Seq<char>)>) -> Result<Seq<u8>, OresError> {
    if e.len() == 0 {
        Err(OresError::ValuesEmpty)
    } else if spec_strings_end(e) > 0x7FFF_FFFF {
        Err(OresError::InvalidNumber)
    } else {
        Ok(spec_hashes_ores_bytes(e))
    }
}

proof fn lemma_strings_total_prefix(e: Seq<(RuntimeID, Seq<char>)>, i: int)
    requires
        0 <= i <= e.len(),
    ensures
        spec_strings_total(e.take(i)) <= spec_strings_total(e),
    decreases e.len() - i,
{
    if i < e.len() {
        lemma_strings_total_prefix(e, i + 1);
        assert(e.take(i + 1).subrange(0, i) =~= e.take(i));
    } else {
        assert(e.take(i) =~= e);
    }
}

/// Serialises a table of identifiers and strings as a hash ORES resource,
/// entries in the table's order. An empty table is a `ValuesEmpty` error,
/// and one whose strings end past what a signed 32-bit field holds an
/// `InvalidNumber` error.
pub fn serialise_hashes_ores(data: &IndexMap<RuntimeID, String>) -> (r: Result<Vec<u8>, OresError>)
    ensures
        r matches Ok(b) ==> spec_serialise_hashes_ores(spec_hash_view(hash_entries(*data))) == Ok::<
            Seq<u8>,
            OresError,
        >(b@),
        r matches Err(e) ==> spec_serialise_hashes_ores(spec_hash_view(hash_entries(*data))) == Err::<
            Seq<u8>,
            OresError,
        >(e),
{
    let entries = hash_entries_of(data);
    let ghost ev = spec_hash_view(entries@);
    let n = entries.len();
    if n == 0 {
        return Err(OresError::ValuesEmpty);
    }
    if n >= 0x0800_0000 {
        return Err(OresError::InvalidNumber);
    }
    // The room that the strings take.
    let mut total: u64 = 0;
    let mut i: usize = 0;
    assert(ev.take(0) =~= Seq::<(RuntimeID, Seq<char>)>::empty());
    while i < n
        invariant
            i <= n,
            n == entries@.len(),
            ev == spec_hash_view(entries@),
            total == crate::encode::spec_cap(spec_strings_total(ev.take(i as int)) as int),
        decreases n - i,
    {
        let l = entries[i].1.as_str().as_bytes().len() as u64;
        proof {
            assert(ev.take(i + 1).subrange(0, i as int) =~= ev.take(i as int));
            assert(spec_entry_bytes(ev.take(i + 1), i as int) == spec_entry_bytes(ev, i as int));
        }
        let k = l.saturating_add(1);
        let block = k.saturating_add(4).saturating_add((4 - k % 4) % 4);
        total = total.saturating_add(block);
        i = i + 1;
    }
    assert(ev.take(n as int) =~= ev);
    let last = entries[n - 1].1.as_str().as_bytes().len() as u64;
    let start: u64 = 0x30 + 0x18 * (n as u64);
    let pad_last = (4 - (last.saturating_add(1)) % 4) % 4;
    if total > 0x7FFF_FFFF || start + total - pad_last > 0x7FFF_FFFF {
        return Err(OresError::InvalidNumber);
    }
    let end = start + total - pad_last;
    assert(end == spec_strings_end(ev));
    let mut out: Vec<u8> = Vec::new();
    let magic: [u8; 8] = [0x42, 0x49, 0x4E, 0x31, 0x00, 0x08, 0x01, 0x00];
    push_bytes(&mut out, &magic);
    push_u32_be(&mut out, (end - 0x10) as u32);
    let fixed: [u8; 12] = [0x00, 0x00, 0x00, 0x00, 0x20, 0x00, 0x00, 0x00, 0x00, 0x00, 0x00, 0x00];
    push_bytes(&mut out, &fixed);
    push_u32_le(&mut out, (start - 0x10) as u32);
    push_u32_le(&mut out, 0);
    push_u32_le(&mut out, (start - 0x10) as u32);
    push_u32_le(&mut out, 0);
    push_u32_le(&mut out, 0);
    push_u32_le(&mut out, n as u32);
    let ghost head = out@;
    // The descriptors.
    let mut offset: u64 = 0;
    let mut i: usize = 0;
    while i < n
        invariant
            i <= n,
            n == entries@.len(),
            n < 0x0800_0000,
            ev == spec_hash_view(entries@),
            start == spec_strings_start(n as nat),
            total == spec_strings_total(ev),
            total <= 0x7FFF_FFFF,
            offset == spec_strings_total(ev.take(i as int)),
            out@ == head + spec_descriptors(ev.take(i as int), start as nat),
        decreases n - i,
    {
        proof {
            assert(ev.take(i + 1).subrange(0, i as int) =~= ev.take(i as int));
            assert(spec_entry_bytes(ev.take(i + 1), i as int) == spec_entry_bytes(ev, i as int));
            lemma_strings_total_prefix(ev, i + 1);
        }
        let h = entries[i].0;
        let l = entries[i].1.as_str().as_bytes().len() as u64;
        let lb = l as u32;
        out.push((lb & 0xff) as u8);
        out.push(((lb >> 8) & 0xff) as u8);
        out.push(((lb >> 16) & 0xff) as u8);
        out.push(0x40u8);
        push_u32_le(&mut out, 0);
        push_u32_le(&mut out, (start - 12 + offset) as u32);
        push_u32_le(&mut out, 0);
        push_u32_le(&mut out, (h.0 / 0x1_0000_0000) as u32);
        push_u32_le(&mut out, (h.0 % 0x1_0000_0000) as u32);
        let k = l + 1;
        offset = offset + 4 + k + (4 - k % 4) % 4;
        i = i + 1;
        assert(out@ =~= head + spec_descriptors(ev.take(i as int), start as nat));
    }
    let ghost mid = out@;
    // The strings.
    let mut i: usize = 0;
    while i < n
        invariant
            i <= n,
            n == entries@.len(),
            ev == spec_hash_view(entries@),
            total == spec_strings_total(ev),
            total <= 0x7FFF_FFFF,
            out@ == mid + spec_strings(ev.take(i as int)),
        decreases n - i,
    {
        proof {
            assert(ev.take(i + 1).subrange(0, i as int) =~= ev.take(i as int));
            assert(spec_entry_bytes(ev.take(i + 1), i as int) == spec_entry_bytes(ev, i as int));
            lemma_strings_total_prefix(ev, i + 1);
        }
        let ghost before = out@;
        if i > 0 {
            proof {
                lemma_strings_total_prefix(ev, i as int);
                assert(ev.take(i as int).subrange(0, i - 1) =~= ev.take(i - 1));
                assert(ev.take(i as int)[i - 1] == ev[i - 1]);
            }
            let p = entries[i - 1].1.as_str().as_bytes().len() as u64 + 1;
            proof {
                assert(spec_entry_bytes(ev.take(i as int), i - 1) == spec_entry_bytes(ev, i - 1));
            }
            let pad = ((4 - p % 4) % 4) as usize;
            let mut z: usize = 0;
            while z < pad
                invariant
                    z <= pad,
                    out@ == before + spec_zeros(z as nat),
                decreases pad - z,
            {
                out.push(0u8);
                z = z + 1;
                assert(out@ =~= before + spec_zeros(z as nat));
            }
        }
        let bytes = entries[i].1.as_str().as_bytes();
        push_u32_le(&mut out, (bytes.len() + 1) as u32);
        push_bytes(&mut out, bytes);
        out.push(0u8);
        i = i + 1;
        assert(out@ =~= mid + spec_strings(ev.take(i as int)));
    }
    let footer: [u8; 4] = [0xED, 0xA5, 0xEB, 0x12];
    push_bytes(&mut out, &footer);
    push_u32_le(&mut out, (4 + (n + 3) * 4) as u32);
    push_u32_le(&mut out, (n + 3) as u32);
    let tail: [u8; 12] = [0x00, 0x00, 0x00, 0x00, 0x08, 0x00, 0x00, 0x00, 0x10, 0x00, 0x00, 0x00];
    push_bytes(&mut out, &tail);
    let ghost before_offsets = out@;
    let mut i: usize = 0;
    while i < n
        invariant
            i <= n,
            n < 0x0800_0000,
            out@ == before_offsets + spec_descriptor_offsets(i as nat),
        decreases n - i,
    {
        push_u32_le(&mut out, (40 + 24 * i) as u32);
        i = i + 1;
        assert(out@ =~= before_offsets + spec_descriptor_offsets(i as nat));
    }
    assert(out@ =~= spec_hashes_ores_bytes(ev));
    Ok(out)
}

} // verus!
