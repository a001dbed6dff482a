//! Wwise events (WWEV): an event's name and attenuation radius with the
//! audio objects it plays, stored inline or streamed from other resources.
//!
//! Layout, little-endian: the name's length with its terminator, the name and
//! a zero byte; the maximum attenuation radius (a float); in the first game
//! only, an unused `0xFFFFFFFF`; the count of inline objects and, for each,
//! its id, its data's length and the data; the count of streamed objects and,
//! for each, the table index of its source, its id, the length of its
//! prefetched data and that data.

use vstd::prelude::*;
use vstd::utf8::{decode_utf8, valid_utf8};
use crate::bytes::{push_u32_le, read_u32_le, spec_u32_bytes, spec_u32_le};
use crate::encode::push_bytes;
use crate::node::string_from_utf8;
use crate::refs::{spec_default_flags, ReferenceFlags, ReferenceType, ResourceReference, RuntimeID};

verus! {

/// Why a Wwise event could not be read.
#[derive(Debug, PartialEq)]
pub enum WwevError {
    /// A read ran past the end of the data.
    Truncated,
    /// The name is not valid UTF-8, or has no terminator.
    InvalidString,
    /// A reference-table index outside the table.
    InvalidReference(usize),
    /// Bytes were left over after the last object.
    DidNotReadEntireFile,
}

/// Which game a Wwise event is written for.
#[derive(Clone, Copy, Debug, PartialEq, Eq, Structural)]
pub enum GameVersion {
    H1,
    H2,
    H3,
}

/// An audio object whose data is stored in the event.
#[derive(Clone, Debug, PartialEq, Eq)]
pub struct WwiseNonStreamedAudioObject {
    pub wem_id: u32,
    pub data: Vec<u8>,
}

/// An audio object streamed from another resource, with some of its data
/// prefetched into the event.
#[derive(Clone, Debug, PartialEq, Eq)]
pub struct WwiseStreamedAudioObject {
    pub wem_id: u32,
    /// The resource that holds the audio.
    pub source: RuntimeID,
    pub prefetched_data: Option<Vec<u8>>,
}

/// A parsed Wwise event. The radius is a float's bit pattern (`-1.0` for
/// none).
#[derive(Clone, Debug, PartialEq)]
pub struct WwiseEvent {
    pub id: RuntimeID,
    /// The soundbank referenced by this event.
    pub soundbank: RuntimeID,
    pub name: String,
    pub max_attenuation_radius: u32,
    pub non_streamed: Vec<WwiseNonStreamedAudioObject>,
    pub streamed: Vec<WwiseStreamedAudioObject>,
}

/// The mathematical value of a streamed object.
pub struct StreamedView {
    pub wem_id: u32,
    pub source: RuntimeID,
    pub prefetched_data: Option<Seq<u8>>,
}

/// The mathematical value of a `WwiseEvent`.
pub struct WwiseEventView {
    pub id: RuntimeID,
    pub soundbank: RuntimeID,
    pub name: Seq<char>,
    pub max_attenuation_radius: u32,
    pub non_streamed: Seq<(u32, Seq<u8>)>,
    pub streamed: Seq<StreamedView>,
}

/// The view of a streamed object.
pub open spec fn spec_streamed_view(o: WwiseStreamedAudioObject) -> StreamedView {
    StreamedView {
        wem_id: o.wem_id,
        source: o.source,
        prefetched_data: match o.prefetched_data {
            Some(d) => Some(d@),
            None => None,
        },
    }
}

impl View for WwiseEvent {
    type V = WwiseEventView;

    open spec fn view(&self) -> WwiseEventView {
        WwiseEventView {
            id: self.id,
            soundbank: self.soundbank,
            name: self.name@,
            max_attenuation_radius: self.max_attenuation_radius,
            non_streamed: Seq::new(
                self.non_streamed@.len(),
                |i: int| (self.non_streamed@[i].wem_id, self.non_streamed@[i].data@),
            ),
            streamed: Seq::new(self.streamed@.len(), |i: int| spec_streamed_view(self.streamed@[i])),
        }
    }
}

/// The `u32` at `pos`, and the position after it.
pub open spec fn spec_take_u32(buf: Seq<u8>, pos: int) -> Option<(u32, int)> {
    if 0 <= pos && pos + 4 <= buf.len() {
        Some((spec_u32_le(buf, pos), pos + 4))
    } else {
        None
    }
}

/// The `n` bytes at `pos`, and the position after them.
pub open spec fn spec_take_bytes(buf: Seq<u8>, pos: int, n: int) -> Option<(Seq<u8>, int)> {
    if 0 <= pos && 0 <= n && pos + n <= buf.len() {
        Some((buf.subrange(pos, pos + n), pos + n))
    } else {
        None
    }
}

/// The first `n` inline objects from `pos`, and the position after them.
pub open spec fn spec_non_streamed(buf: Seq<u8>, pos: int, n: nat) -> Option<(Seq<(u32, Seq<u8>)>, int)>
    decreases n,
{
    if n == 0 {
        Some((Seq::empty(), pos))
    } else {
        match spec_non_streamed(buf, pos, (n - 1) as nat) {
            None => None,
            Some((s, p)) => match spec_take_u32(buf, p) {
                None => None,
                Some((id, at1)) => match spec_take_u32(buf, at1) {
                    None => None,
                    Some((size, at2)) => match spec_take_bytes(buf, at2, size as int) {
                        None => None,
                        Some((d, at3)) => Some((s.push((id, d)), at3)),
                    },
                },
            },
        }
    }
}

/// The first `n` streamed objects from `pos`, and the position after them.
pub open spec fn spec_streamed(buf: Seq<u8>, refs: Seq<ResourceReference>, pos: int, n: nat) -> Result<
    (Seq<StreamedView>, int),
    WwevError,
>
    decreases n,
{
    if n == 0 {
        Ok((Seq::empty(), pos))
    } else {
        match spec_streamed(buf, refs, pos, (n - 1) as nat) {
            Err(e) => Err(e),
            Ok((s, p)) => match spec_take_u32(buf, p) {
                None => Err(WwevError::Truncated),
                Some((index, at1)) => match spec_take_u32(buf, at1) {
                    None => Err(WwevError::Truncated),
                    Some((id, at2)) => match spec_take_u32(buf, at2) {
                        None => Err(WwevError::Truncated),
                        Some((size, at3)) => {
                            let data = if size == 0 {
                                Some((None, at3))
                            } else {
                                match spec_take_bytes(buf, at3, size as int) {
                                    None => None,
                                    Some((d, at4)) => Some((Some(d), at4)),
                                }
                            };
                            match data {
                                None => Err(WwevError::Truncated),
                                Some((prefetched_data, at4)) => if (index as int) < refs.len() {
                                    Ok(
                                        (
                                            s.push(
                                                StreamedView {
                                                    wem_id: id,
                                                    source: refs[index as int].resource,
                                                    prefetched_data,
                                                },
                                            ),
                                            at4,
                                        ),
                                    )
                                } else {
                                    Err(WwevError::InvalidReference(index as usize))
                                },
                            }
                        },
                    },
                },
            },
        }
    }
}

/// The number of inline objects that a stored count stands for: a negative
/// count stands for none.
pub open spec fn spec_count(c: u32) -> nat {
    if c >= 0x8000_0000 {
        0
    } else {
        c as nat
    }
}

/// What follows the counts of a Wwise event: its `n` inline objects from
/// `pos`, then its streamed objects, which must end the data.
pub open spec fn spec_wwev_body(
    buf: Seq<u8>,
    id: RuntimeID,
    refs: Seq<ResourceReference>,
    name: Seq<char>,
    radius: u32,
    n: nat,
    pos: int,
) -> Result<WwiseEventView, WwevError> {
    match spec_non_streamed(buf, pos, n) {
        None => Err(WwevError::Truncated),
        Some((ns, at5)) => match spec_take_u32(buf, at5) {
            None => Err(WwevError::Truncated),
            Some((sc, at6)) => spec_wwev_tail(buf, id, refs, name, radius, ns, sc as nat, at6),
        },
    }
}

/// The streamed objects of a Wwise event, `n` of them from `pos`, which
/// must end the data, and the event they complete.
pub open spec fn spec_wwev_tail(
    buf: Seq<u8>,
    id: RuntimeID,
    refs: Seq<ResourceReference>,
    name: Seq<char>,
    radius: u32,
    ns: Seq<(u32, Seq<u8>)>,
    n: nat,
    pos: int,
) -> Result<WwiseEventView, WwevError> {
    match spec_streamed(buf, refs, pos, n) {
        Err(e) => Err(e),
        Ok((st, at7)) => if at7 != buf.len() {
            Err(WwevError::DidNotReadEntireFile)
        } else if refs.len() == 0 {
            Err(WwevError::InvalidReference(0))
        } else {
            Ok(
                WwiseEventView {
                    id,
                    soundbank: refs[0].resource,
                    name,
                    max_attenuation_radius: radius,
                    non_streamed: ns,
                    streamed: st,
                },
            )
        },
    }
}

/// The Wwise event that `buf` holds, with identifier `id` and reference
/// table `refs`, whose first entry is the soundbank.
pub open spec fn spec_parse_wwev(buf: Seq<u8>, id: RuntimeID, refs: Seq<ResourceReference>) -> Result<
    WwiseEventView,
    WwevError,
> {
    match spec_take_u32(buf, 0) {
        None => Err(WwevError::Truncated),
        Some((name_len, p)) => match spec_take_bytes(buf, p, name_len as int) {
            None => Err(WwevError::Truncated),
            Some((nb, at1)) => if name_len == 0 || !valid_utf8(nb.subrange(0, name_len - 1)) {
                Err(WwevError::InvalidString)
            } else {
                match spec_take_u32(buf, at1) {
                    None => Err(WwevError::Truncated),
                    Some((radius, at2)) => match spec_take_u32(buf, at2) {
                        None => Err(WwevError::Truncated),
                        Some((c0, at3)) => {
                            let counted = if c0 == 0xFFFF_FFFF {
                                spec_take_u32(buf, at3)
                            } else {
                                Some((c0, at3))
                            };
                            match counted {
                                None => Err(WwevError::Truncated),
                                Some((c, at4)) => spec_wwev_body(
                                    buf,
                                    id,
                                    refs,
                                    decode_utf8(nb.subrange(0, name_len - 1)),
                                    radius,
                                    spec_count(c),
                                    at4,
                                ),
                            }
                        },
                    },
                }
            },
        },
    }
}

/// Reads the `u32` at `pos`.
fn take_u32(data: &[u8], pos: usize) -> (r: Option<(u32, usize)>)
    ensures
        match r {
            Some((v, q)) => spec_take_u32(data@, pos as int) == Some((v, q as int)),
            None => spec_take_u32(data@, pos as int) is None,
        },
{
    if pos <= data.len() && data.len() - pos >= 4 {
        Some((read_u32_le(data, pos), pos + 4))
    } else {
        None
    }
}

/// Copies the `n` bytes at `pos`.
fn take_bytes(data: &[u8], pos: usize, n: u32) -> (r: Option<(Vec<u8>, usize)>)
    ensures
        match r {
            Some((v, q)) => spec_take_bytes(data@, pos as int, n as int) == Some((v@, q as int)),
            None => spec_take_bytes(data@, pos as int, n as int) is None,
        },
{
    if pos > data.len() || data.len() - pos < n as usize {
        return None;
    }
    let len = data.len();
    let mut out: Vec<u8> = Vec::new();
    let mut i: usize = 0;
    while i < n as usize
        invariant
            i <= n,
            len == data@.len(),
            pos + n <= data@.len(),
            out@ == data@.subrange(pos as int, pos + i),
        decreases n - i,
    {
        out.push(data[pos + i]);
        i = i + 1;
        assert(out@ =~= data@.subrange(pos as int, pos + i));
    }
    Some((out, pos + n as usize))
}

proof fn lemma_streamed_error_stays(
    buf: Seq<u8>,
    refs: Seq<ResourceReference>,
    pos: int,
    i: nat,
    n: nat,
    e: WwevError,
)
    requires
        i <= n,
        spec_streamed(buf, refs, pos, i) == Err::<(Seq<StreamedView>, int), WwevError>(e),
    ensures
        spec_streamed(buf, refs, pos, n) == Err::<(Seq<StreamedView>, int), WwevError>(e),
    decreases n - i,
{
    if i < n {
        lemma_streamed_error_stays(buf, refs, pos, i, (n - 1) as nat, e);
    }
}

proof fn lemma_non_streamed_none_stays(buf: Seq<u8>, pos: int, i: nat, n: nat)
    requires
        i <= n,
        spec_non_streamed(buf, pos, i) is None,
    ensures
        spec_non_streamed(buf, pos, n) is None,
    decreases n - i,
{
    if i < n {
        lemma_non_streamed_none_stays(buf, pos, i, (n - 1) as nat);
    }
}

/// The views of the inline objects.
pub open spec fn spec_non_streamed_views(v: Seq<WwiseNonStreamedAudioObject>) -> Seq<(u32, Seq<u8>)> {
    Seq::new(v.len(), |i: int| (v[i].wem_id, v[i].data@))
}

/// The views of the streamed objects.
pub open spec fn spec_streamed_views(v: Seq<WwiseStreamedAudioObject>) -> Seq<StreamedView> {
    Seq::new(v.len(), |i: int| spec_streamed_view(v[i]))
}

impl WwiseEvent {
    /// Parses a Wwise event with identifier `id`, whose reference table
    /// `references` holds the soundbank first and the sources of its
    /// streamed objects.
    pub fn parse(wwev_data: &[u8], id: RuntimeID, references: &[ResourceReference]) -> (r: Result<
        WwiseEvent,
        WwevError,
    >)
        ensures
            r matches Ok(e) ==> spec_parse_wwev(wwev_data@, id, references@) == Ok::<WwiseEventView, WwevError>(e@),
            r matches Err(e) ==> spec_parse_wwev(wwev_data@, id, references@) == Err::<WwiseEventView, WwevError>(e),
    {
        let ghost buf = wwev_data@;
        let (name_len, p) = match take_u32(wwev_data, 0) {
            Some(x) => x,
            None => {
                return Err(WwevError::Truncated);
            },
        };
        let (nb, at1) = match take_bytes(wwev_data, p, name_len) {
            Some(x) => x,
            None => {
                return Err(WwevError::Truncated);
            },
        };
        if name_len == 0 {
            return Err(WwevError::InvalidString);
        }
        let mut text: Vec<u8> = Vec::new();
        let mut i: usize = 0;
        while i < (name_len - 1) as usize
            invariant
                nb@.len() == name_len,
                name_len > 0,
                i <= name_len - 1,
                text@ == nb@.subrange(0, i as int),
            decreases name_len - 1 - i,
        {
            text.push(nb[i]);
            i = i + 1;
            assert(text@ =~= nb@.subrange(0, i as int));
        }
        let name = match string_from_utf8(text) {
            Some(s) => s,
            None => {
                return Err(WwevError::InvalidString);
            },
        };
        let (radius, at2) = match take_u32(wwev_data, at1) {
            Some(x) => x,
            None => {
                return Err(WwevError::Truncated);
            },
        };
        let (c0, at3) = match take_u32(wwev_data, at2) {
            Some(x) => x,
            None => {
                return Err(WwevError::Truncated);
            },
        };
        let (c, at4) = if c0 == 0xFFFF_FFFF {
            match take_u32(wwev_data, at3) {
                Some(x) => x,
                None => {
                    return Err(WwevError::Truncated);
                },
            }
        } else {
            (c0, at3)
        };
        let count: u32 = if c >= 0x8000_0000 { 0 } else { c };
        let mut non_streamed: Vec<WwiseNonStreamedAudioObject> = Vec::new();
        let mut pos = at4;
        let mut k: u32 = 0;
        assert(spec_non_streamed_views(non_streamed@) =~= Seq::<(u32, Seq<u8>)>::empty());
        while k < count
            invariant
                k <= count,
                buf == wwev_data@,
                spec_parse_wwev(buf, id, references@) == spec_wwev_body(buf, id, references@, name@, radius, count as nat, at4 as int),
                spec_non_streamed(buf, at4 as int, k as nat) == Some((spec_non_streamed_views(non_streamed@), pos as int)),
            decreases count - k,
        {
            let (wem_id, q1) = match take_u32(wwev_data, pos) {
                Some(x) => x,
                None => {
                    proof {
                        lemma_non_streamed_none_stays(buf, at4 as int, (k + 1) as nat, count as nat);
                    }
                    return Err(WwevError::Truncated);
                },
            };
            let (size, q2) = match take_u32(wwev_data, q1) {
                Some(x) => x,
                None => {
                    proof {
                        lemma_non_streamed_none_stays(buf, at4 as int, (k + 1) as nat, count as nat);
                    }
                    return Err(WwevError::Truncated);
                },
            };
            let (data, q3) = match take_bytes(wwev_data, q2, size) {
                Some(x) => x,
                None => {
                    proof {
                        lemma_non_streamed_none_stays(buf, at4 as int, (k + 1) as nat, count as nat);
                    }
                    return Err(WwevError::Truncated);
                },
            };
            let ghost before = spec_non_streamed_views(non_streamed@);
            let ghost dv = data@;
            non_streamed.push(WwiseNonStreamedAudioObject { wem_id, data });
            assert(spec_non_streamed_views(non_streamed@) =~= before.push((wem_id, dv)));
            pos = q3;
            k = k + 1;
        }
        let (sc, at6) = match take_u32(wwev_data, pos) {
            Some(x) => x,
            None => {
                return Err(WwevError::Truncated);
            },
        };
        let ghost ns = spec_non_streamed_views(non_streamed@);
        let mut streamed: Vec<WwiseStreamedAudioObject> = Vec::new();
        let mut pos = at6;
        let mut k: u32 = 0;
        assert(spec_streamed_views(streamed@) =~= Seq::<StreamedView>::empty());
        while k < sc
            invariant
                k <= sc,
                buf == wwev_data@,
                spec_parse_wwev(buf, id, references@) == spec_wwev_tail(buf, id, references@, name@, radius, ns, sc as nat, at6 as int),
                spec_streamed(buf, references@, at6 as int, k as nat) == Ok::<(Seq<StreamedView>, int), WwevError>(
                    (spec_streamed_views(streamed@), pos as int),
                ),
            decreases sc - k,
        {
            let (index, q1) = match take_u32(wwev_data, pos) {
                Some(x) => x,
                None => {
                    proof {
                        lemma_streamed_error_stays(buf, references@, at6 as int, (k + 1) as nat, sc as nat, WwevError::Truncated);
                    }
                    return Err(WwevError::Truncated);
                },
            };
            let (wem_id, q2) = match take_u32(wwev_data, q1) {
                Some(x) => x,
                None => {
                    proof {
                        lemma_streamed_error_stays(buf, references@, at6 as int, (k + 1) as nat, sc as nat, WwevError::Truncated);
                    }
                    return Err(WwevError::Truncated);
                },
            };
            let (size, q3) = match take_u32(wwev_data, q2) {
                Some(x) => x,
                None => {
                    proof {
                        lemma_streamed_error_stays(buf, references@, at6 as int, (k + 1) as nat, sc as nat, WwevError::Truncated);
                    }
                    return Err(WwevError::Truncated);
                },
            };
            let (prefetched_data, q4) = if size == 0 {
                (None, q3)
            } else {
                match take_bytes(wwev_data, q3, size) {
                    Some((d, q)) => (Some(d), q),
                    None => {
                        proof {
                            lemma_streamed_error_stays(buf, references@, at6 as int, (k + 1) as nat, sc as nat, WwevError::Truncated);
                        }
                        return Err(WwevError::Truncated);
                    },
                }
            };
            if index as usize >= references.len() {
                proof {
                    lemma_streamed_error_stays(
                        buf,
                        references@,
                        at6 as int,
                        (k + 1) as nat,
                        sc as nat,
                        WwevError::InvalidReference(index as usize),
                    );
                }
                return Err(WwevError::InvalidReference(index as usize));
            }
            let o = WwiseStreamedAudioObject { wem_id, source: references[index as usize].resource, prefetched_data };
            let ghost before = spec_streamed_views(streamed@);
            let ghost ov = spec_streamed_view(o);
            streamed.push(o);
            assert(spec_streamed_views(streamed@) =~= before.push(ov));
            pos = q4;
            k = k + 1;
        }
        if pos != wwev_data.len() {
            return Err(WwevError::DidNotReadEntireFile);
        }
        if references.len() == 0 {
            return Err(WwevError::InvalidReference(0));
        }
        let e = WwiseEvent {
            id,
            soundbank: references[0].resource,
            name,
            max_attenuation_radius: radius,
            non_streamed,
            streamed,
        };
        assert(e@.non_streamed =~= ns);
        assert(e@.streamed =~= spec_streamed_views(e.streamed@));
        Ok(e)
    }
}

/// The reference-table entries of an event: the soundbank, then the source
/// of each streamed object, held weakly.
pub open spec fn spec_wwev_refs(soundbank: RuntimeID, st: Seq<StreamedView>) -> Seq<ResourceReference> {
    seq![ResourceReference { resource: soundbank, flags: spec_default_flags(ReferenceType::Normal) }] + Seq::new(
        st.len(),
        |i: int| ResourceReference { resource: st[i].source, flags: spec_default_flags(ReferenceType::Weak) },
    )
}

/// The index of the first entry of `refs` from `i` on that names `id`.
pub open spec fn spec_ref_index(refs: Seq<ResourceReference>, id: RuntimeID, i: int) -> int
    decreases refs.len() - i,
{
    if i < 0 || i >= refs.len() {
        refs.len() as int
    } else if refs[i].resource == id {
        i
    } else {
        spec_ref_index(refs, id, i + 1)
    }
}

/// The bytes of the inline objects.
pub open spec fn spec_non_streamed_bytes(ns: Seq<(u32, Seq<u8>)>) -> Seq<u8>
    decreases ns.len(),
{
    if ns.len() == 0 {
        Seq::empty()
    } else {
        let o = ns[ns.len() - 1];
        spec_non_streamed_bytes(ns.subrange(0, ns.len() - 1)) + spec_u32_bytes(o.0) + spec_u32_bytes(
            o.1.len() as u32,
        ) + o.1
    }
}

/// The bytes of the streamed objects, whose sources are looked up in `refs`.
pub open spec fn spec_streamed_bytes(refs: Seq<ResourceReference>, st: Seq<StreamedView>) -> Seq<u8>
    decreases st.len(),
{
    if st.len() == 0 {
        Seq::empty()
    } else {
        let o = st[st.len() - 1];
        spec_streamed_bytes(refs, st.subrange(0, st.len() - 1)) + spec_u32_bytes(
            spec_ref_index(refs, o.source, 0) as u32,
        ) + spec_u32_bytes(o.wem_id) + match o.prefetched_data {
            Some(d) => spec_u32_bytes(d.len() as u32) + d,
            None => spec_u32_bytes(0),
        }
    }
}

/// The bytes of an event written for `version`.
pub open spec fn spec_wwev_bytes(e: WwiseEventView, version: GameVersion) -> Seq<u8> {
    let name = vstd::utf8::encode_utf8(e.name);
    spec_u32_bytes((name.len() + 1) as u32) + name + seq![0u8] + spec_u32_bytes(e.max_attenuation_radius) + (
    if version == GameVersion::H1 {
        spec_u32_bytes(0xFFFF_FFFF)
    } else {
        Seq::empty()
    }) + spec_u32_bytes(e.non_streamed.len() as u32) + spec_non_streamed_bytes(e.non_streamed) + spec_u32_bytes(
        e.streamed.len() as u32,
    ) + spec_streamed_bytes(spec_wwev_refs(e.soundbank, e.streamed), e.streamed)
}

/// The index of the first entry of `refs` that names `id`.
fn ref_index(refs: &Vec<ResourceReference>, id: RuntimeID) -> (r: usize)
    ensures
        r == spec_ref_index(refs@, id, 0),
{
    let mut i: usize = 0;
    while i < refs.len()
        invariant
            i <= refs@.len(),
            spec_ref_index(refs@, id, 0) == spec_ref_index(refs@, id, i as int),
        decreases refs@.len() - i,
    {
        if refs[i].resource == id {
            return i;
        }
        i = i + 1;
    }
    i
}

impl WwiseEvent {
    /// Writes this event for `version`. Returns the bytes and the reference
    /// table: the soundbank, then the source of each streamed object. Every
    /// length must fit the format's 32-bit fields.
    pub fn generate(self, version: GameVersion) -> (r: (Vec<u8>, Vec<ResourceReference>))
        requires
            vstd::utf8::encode_utf8(self.name@).len() < u32::MAX,
            self.non_streamed@.len() <= u32::MAX,
            self.streamed@.len() < u32::MAX,
            forall|i: int| 0 <= i < self.non_streamed@.len() ==> #[trigger] self.non_streamed@[i].data@.len() <= u32::MAX,
            forall|i: int|
                0 <= i < self.streamed@.len() ==> (#[trigger] self.streamed@[i].prefetched_data matches Some(d)
                    ==> d@.len() <= u32::MAX),
        ensures
            r.1@ == spec_wwev_refs(self@.soundbank, self@.streamed),
            r.0@ == spec_wwev_bytes(self@, version),
    {
        let ghost ev = self@;
        let mut refs: Vec<ResourceReference> = Vec::new();
        refs.push(
            ResourceReference {
                resource: self.soundbank,
                flags: ReferenceFlags { reference_type: ReferenceType::Normal, acquired: false, language_code: 0 },
            },
        );
        let mut i: usize = 0;
        while i < self.streamed.len()
            invariant
                i <= self.streamed@.len(),
                ev == self@,
                refs@ == seq![ResourceReference { resource: ev.soundbank, flags: spec_default_flags(ReferenceType::Normal) }]
                    + Seq::new(
                    i as nat,
                    |j: int| ResourceReference { resource: ev.streamed[j].source, flags: spec_default_flags(ReferenceType::Weak) },
                ),
            decreases self.streamed@.len() - i,
        {
            refs.push(
                ResourceReference {
                    resource: self.streamed[i].source,
                    flags: ReferenceFlags { reference_type: ReferenceType::Weak, acquired: false, language_code: 0 },
                },
            );
            i = i + 1;
            assert(refs@ =~= seq![ResourceReference { resource: ev.soundbank, flags: spec_default_flags(ReferenceType::Normal) }]
                + Seq::new(
                i as nat,
                |j: int| ResourceReference { resource: ev.streamed[j].source, flags: spec_default_flags(ReferenceType::Weak) },
            ));
        }
        assert(refs@ =~= spec_wwev_refs(ev.soundbank, ev.streamed));
        let mut out: Vec<u8> = Vec::new();
        let name = self.name.as_str().as_bytes();
        let stored_len = (name.len() + 1) as u32;
        push_u32_le(&mut out, stored_len);
        push_bytes(&mut out, name);
        out.push(0u8);
        push_u32_le(&mut out, self.max_attenuation_radius);
        if version == GameVersion::H1 {
            push_u32_le(&mut out, 0xFFFF_FFFF);
        }
        let ghost nb = vstd::utf8::encode_utf8(ev.name);
        assert(name@ == nb);
        assert(stored_len == (nb.len() + 1) as u32);
        assert(out@ =~= spec_u32_bytes((nb.len() + 1) as u32) + nb + seq![0u8] + spec_u32_bytes(ev.max_attenuation_radius) + (
        if version == GameVersion::H1 {
            spec_u32_bytes(0xFFFF_FFFF)
        } else {
            Seq::empty()
        }));
        push_u32_le(&mut out, self.non_streamed.len() as u32);
        let ghost start = out@;
        let mut i: usize = 0;
        while i < self.non_streamed.len()
            invariant
                i <= self.non_streamed@.len(),
                ev == self@,
                out@ == start + spec_non_streamed_bytes(ev.non_streamed.take(i as int)),
            decreases self.non_streamed@.len() - i,
        {
            let o = &self.non_streamed[i];
            push_u32_le(&mut out, o.wem_id);
            push_u32_le(&mut out, o.data.len() as u32);
            push_bytes(&mut out, o.data.as_slice());
            proof {
                assert(ev.non_streamed.take(i + 1).subrange(0, i as int) =~= ev.non_streamed.take(i as int));
                assert(ev.non_streamed[i as int] == (o.wem_id, o.data@));
            }
            i = i + 1;
            assert(out@ =~= start + spec_non_streamed_bytes(ev.non_streamed.take(i as int)));
        }
        assert(ev.non_streamed.take(ev.non_streamed.len() as int) =~= ev.non_streamed);
        push_u32_le(&mut out, self.streamed.len() as u32);
        let ghost start2 = out@;
        let mut i: usize = 0;
        while i < self.streamed.len()
            invariant
                i <= self.streamed@.len(),
                ev == self@,
                refs@ == spec_wwev_refs(ev.soundbank, ev.streamed),
                out@ == start2 + spec_streamed_bytes(refs@, ev.streamed.take(i as int)),
            decreases self.streamed@.len() - i,
        {
            let o = &self.streamed[i];
            let index = ref_index(&refs, o.source);
            push_u32_le(&mut out, index as u32);
            push_u32_le(&mut out, o.wem_id);
            match &o.prefetched_data {
                Some(d) => {
                    push_u32_le(&mut out, d.len() as u32);
                    push_bytes(&mut out, d.as_slice());
                },
                None => {
                    push_u32_le(&mut out, 0);
                },
            }
            proof {
                assert(ev.streamed.take(i + 1).subrange(0, i as int) =~= ev.streamed.take(i as int));
                assert(ev.streamed[i as int] == spec_streamed_view(*o));
            }
            i = i + 1;
            assert(out@ =~= start2 + spec_streamed_bytes(refs@, ev.streamed.take(i as int)));
        }
        assert(ev.streamed.take(ev.streamed.len() as int) =~= ev.streamed);
        assert(out@ =~= spec_wwev_bytes(ev, version));
        (out, refs)
    }
}

} // verus!
