//! Splitting raw E-AC-3 and TrueHD elementary streams into access units.

use crate::syncframe::access_unit::{inspect_access_unit, lemma_inspection_consistent, spec_inspect};
use crate::syncframe::types::ParseError;
use crate::text::{append_decimal, spec_decimal};
use vstd::arithmetic::div_mod::{lemma_fundamental_div_mod, lemma_mod_multiples_vanish, lemma_small_mod};
use vstd::prelude::*;
use vstd::slice::slice_subrange;
use vstd::string::StringExecFns;

verus! {

/// One E-AC-3 frame of a raw stream: where it starts and its bytes.
pub struct RawEac3Frame<'a> {
    pub offset: usize,
    pub bytes: &'a [u8],
}

/// Walks a raw E-AC-3 stream frame by frame.
pub struct RawEac3FrameIter<'a> {
    data: &'a [u8],
    offset: usize,
}

/// One step of the E-AC-3 frame walk from byte `offset` of `data`: `None` at the end, else the
/// frame (its start and length) or the error, and the offset after it. An error ends the walk.
pub open spec fn spec_eac3_step(data: Seq<u8>, offset: int) -> Option<
    (Result<(int, int), ParseError>, int),
> {
    if offset >= data.len() {
        None
    } else {
        match spec_inspect(data.subrange(offset, data.len() as int)) {
            Ok(info) => {
                let available = data.len() - offset;
                if info.frame_size > available {
                    Some(
                        (
                            Err(
                                ParseError::TruncatedFrame {
                                    expected: info.frame_size,
                                    available: available as usize,
                                },
                            ),
                            data.len() as int,
                        ),
                    )
                } else {
                    Some((Ok((offset, info.frame_size as int)), offset + info.frame_size))
                }
            },
            Err(e) => Some((Err(e), data.len() as int)),
        }
    }
}

/// Each step of the E-AC-3 walk makes progress: a frame starts where the walk stands, is not
/// empty and ends inside the stream, where the next step starts; an error moves the walk to the
/// end of the stream, after which it yields nothing. So the frames tile the stream from its
/// start, in order, and the walk ends after at most one step per byte.
pub proof fn lemma_eac3_step_progress(data: Seq<u8>, offset: int)
    requires
        0 <= offset <= data.len(),
    ensures
        match spec_eac3_step(data, offset) {
            None => offset == data.len(),
            Some((Ok((start, len)), next)) => start == offset && 0 < len && next == start + len
                && next <= data.len(),
            Some((Err(_), next)) => next == data.len() && spec_eac3_step(data, next) is None,
        },
{
    if offset < data.len() {
        let rest = data.subrange(offset, data.len() as int);
        if spec_inspect(rest) is Ok {
            lemma_inspection_consistent(rest);
        }
    }
}

impl<'a> RawEac3FrameIter<'a> {
    /// Byte offset of the next frame.
    pub closed spec fn position(&self) -> int {
        self.offset as int
    }

    /// The stream being walked.
    pub closed spec fn stream(&self) -> Seq<u8> {
        self.data@
    }

    /// A walk at the start of `data`.
    pub fn new(data: &'a [u8]) -> (it: Self)
        ensures
            it.stream() == data@,
            it.position() == 0,
    {
        RawEac3FrameIter { data, offset: 0 }
    }

    /// The next frame of the stream, or the error that ends the walk.
    pub fn next(&mut self) -> (r: Option<Result<RawEac3Frame<'a>, ParseError>>)
        requires
            old(self).position() <= old(self).stream().len(),
        ensures
            final(self).stream() == old(self).stream(),
            final(self).position() <= final(self).stream().len(),
            match spec_eac3_step(old(self).stream(), old(self).position()) {
                None => r is None && final(self).position() == old(self).position(),
                Some((item, next)) => final(self).position() == next && match item {
                    Ok((start, len)) => r matches Some(Ok(f)) && f.offset == start && f.bytes@
                        == old(self).stream().subrange(start, start + len),
                    Err(e) => r == Some(Err::<RawEac3Frame<'a>, ParseError>(e)),
                },
            },
    {
        if self.offset >= self.data.len() {
            return None;
        }
        let rest = slice_subrange(self.data, self.offset, self.data.len());
        match inspect_access_unit(rest) {
            Ok(info) => {
                let available = self.data.len() - self.offset;
                if info.frame_size > available {
                    self.offset = self.data.len();
                    return Some(
                        Err(ParseError::TruncatedFrame { expected: info.frame_size, available }),
                    );
                }
                let frame = RawEac3Frame {
                    offset: self.offset,
                    bytes: slice_subrange(self.data, self.offset, self.offset + info.frame_size),
                };
                self.offset = self.offset + info.frame_size;
                Some(Ok(frame))
            },
            Err(err) => {
                self.offset = self.data.len();
                Some(Err(err))
            },
        }
    }
}

/// Errors met while splitting a raw TrueHD stream.
#[derive(Debug, Clone, PartialEq, Eq, Structural)]
pub enum RawTrueHdError {
    NoMajorSync { offset: usize },
    InvalidAccessUnitLength { offset: usize, length: usize },
    TruncatedAccessUnit { offset: usize, expected: usize, available: usize },
}

/// Text of a TrueHD splitting error.
pub open spec fn spec_raw_truehd_error_text(e: RawTrueHdError) -> Seq<char> {
    match e {
        RawTrueHdError::NoMajorSync { offset } => "no-major-sync offset="@ + spec_decimal(
            offset as nat,
        ),
        RawTrueHdError::InvalidAccessUnitLength { offset, length } =>
            "invalid-access-unit-length offset="@ + spec_decimal(offset as nat) + " length="@
            + spec_decimal(length as nat),
        RawTrueHdError::TruncatedAccessUnit { offset, expected, available } =>
            "truncated-access-unit offset="@ + spec_decimal(offset as nat) + " expected="@
            + spec_decimal(expected as nat) + " available="@ + spec_decimal(available as nat),
    }
}

impl RawTrueHdError {
    /// Text of the error.
    pub fn to_string(&self) -> (s: String)
        ensures
            s@ == spec_raw_truehd_error_text(*self),
    {
        let mut out = String::new();
        match self {
            RawTrueHdError::NoMajorSync { offset } => {
                out.append("no-major-sync offset=");
                append_decimal(&mut out, *offset as u64);
            },
            RawTrueHdError::InvalidAccessUnitLength { offset, length } => {
                out.append("invalid-access-unit-length offset=");
                append_decimal(&mut out, *offset as u64);
                out.append(" length=");
                append_decimal(&mut out, *length as u64);
            },
            RawTrueHdError::TruncatedAccessUnit { offset, expected, available } => {
                out.append("truncated-access-unit offset=");
                append_decimal(&mut out, *offset as u64);
                out.append(" expected=");
                append_decimal(&mut out, *expected as u64);
                out.append(" available=");
                append_decimal(&mut out, *available as u64);
            },
        }
        assert(out@ =~= spec_raw_truehd_error_text(*self));
        out
    }
}

/// One TrueHD access unit of a raw stream: where it starts and its bytes.
pub struct RawTrueHdAccessUnit<'a> {
    pub offset: usize,
    pub bytes: &'a [u8],
}

/// Walks a raw TrueHD stream access unit by access unit.
pub struct RawTrueHdAccessUnitIter<'a> {
    data: &'a [u8],
    offset: usize,
    synced: bool,
}

/// The four bytes at `p` are a major sync word (`F8 72 6F BA` or `F8 72 6F BB`).
pub open spec fn is_major_sync_at(data: Seq<u8>, p: int) -> bool {
    &&& 0 <= p
    &&& p + 4 <= data.len()
    &&& data[p] == 0xF8
    &&& data[p + 1] == 0x72
    &&& data[p + 2] == 0x6F
    &&& (data[p + 3] == 0xBA || data[p + 3] == 0xBB)
}

/// The first position from `p` on where a major sync word starts.
pub open spec fn spec_first_major_sync(data: Seq<u8>, p: int) -> Option<int>
    decreases data.len() - p,
{
    if p < 0 || p + 4 > data.len() {
        None
    } else if is_major_sync_at(data, p) {
        Some(p)
    } else {
        spec_first_major_sync(data, p + 1)
    }
}

/// Start of the first access unit at or after `offset`: four bytes before the first major
/// sync word found from `max(offset + 4, 4)` on.
pub open spec fn spec_initial_access_unit_start(data: Seq<u8>, offset: int) -> Option<int> {
    let search_start = if offset + 4 > 4 {
        offset + 4
    } else {
        4
    };
    if search_start + 4 > data.len() {
        None
    } else {
        match spec_first_major_sync(data, search_start) {
            Some(p) => Some(p - 4),
            None => None,
        }
    }
}

/// Length in bytes of the access unit at `p`: twelve bits of 16-bit words.
pub open spec fn spec_access_unit_length(data: Seq<u8>, p: int) -> int {
    (((data[p] as int) % 16) * 256 + data[p + 1] as int) * 2
}

/// The big-endian 16-bit word at byte `p`.
pub open spec fn be16_at(data: Seq<u8>, p: int) -> int {
    data[p] as int * 256 + data[p + 1] as int
}

/// An access unit's length in bytes is twice the low twelve bits of the big-endian word at
/// its start: the top four (check) bits of that word play no part. Every step of the synced
/// walk, and every length error it reports, uses that length.
pub proof fn lemma_access_unit_length_is_low_12_bits(data: Seq<u8>, p: int)
    requires
        0 <= p,
        p + 2 <= data.len(),
        data.len() <= usize::MAX,
    ensures
        spec_access_unit_length(data, p) == 2 * (be16_at(data, p) % 4096),
        forall|other: Seq<u8>|
            other.len() == data.len() && other[p] % 16 == data[p] % 16 && other[p + 1] == data[p
                + 1] ==> #[trigger] spec_access_unit_length(other, p) == spec_access_unit_length(
                data,
                p,
            ),
        match spec_truehd_unit(data, p).0 {
            Ok((start, len)) => start == p && len == 2 * (be16_at(data, p) % 4096),
            Err(RawTrueHdError::InvalidAccessUnitLength { offset, length }) => offset == p
                && length == 2 * (be16_at(data, p) % 4096),
            Err(RawTrueHdError::TruncatedAccessUnit { offset, expected, available }) => offset
                == p && expected == 2 * (be16_at(data, p) % 4096) && available == data.len() - p,
            Err(RawTrueHdError::NoMajorSync { .. }) => false,
        },
{
    let a = data[p] as int;
    let b = data[p + 1] as int;
    lemma_fundamental_div_mod(a, 16);
    assert(a * 256 + b == 4096 * (a / 16) + ((a % 16) * 256 + b)) by (nonlinear_arith)
        requires
            a == 16 * (a / 16) + a % 16,
    ;
    lemma_mod_multiples_vanish(a / 16, (a % 16) * 256 + b, 4096);
    lemma_small_mod(((a % 16) * 256 + b) as nat, 4096);
}

/// One step of the TrueHD walk from byte `offset` (`synced` once the first major sync was
/// found): `None` at the end, else the access unit (start and length) or the error, the
/// offset after it, and whether the walk is synced. An error ends the walk.
pub open spec fn spec_truehd_step(data: Seq<u8>, offset: int, synced: bool) -> Option<
    (Result<(int, int), RawTrueHdError>, int, bool),
> {
    if offset >= data.len() {
        None
    } else {
        let start: Option<int> = if synced {
            Some(offset)
        } else {
            spec_initial_access_unit_start(data, offset)
        };
        match start {
            None => Some(
                (Err(RawTrueHdError::NoMajorSync { offset: offset as usize }), data.len() as int, false),
            ),
            Some(o) => Some(spec_truehd_unit(data, o)),
        }
    }
}

/// The access unit at byte `o` of `data` (or the error there), the offset after it, and the
/// synced flag.
pub open spec fn spec_truehd_unit(data: Seq<u8>, o: int) -> (
    Result<(int, int), RawTrueHdError>,
    int,
    bool,
) {
    if o + 2 > data.len() {
        (
            Err(
                RawTrueHdError::TruncatedAccessUnit {
                    offset: o as usize,
                    expected: 2,
                    available: (data.len() - o) as usize,
                },
            ),
            data.len() as int,
            true,
        )
    } else {
        let length = spec_access_unit_length(data, o);
        if length < 8 {
            (
                Err(
                    RawTrueHdError::InvalidAccessUnitLength {
                        offset: o as usize,
                        length: length as usize,
                    },
                ),
                data.len() as int,
                true,
            )
        } else if length > data.len() - o {
            (
                Err(
                    RawTrueHdError::TruncatedAccessUnit {
                        offset: o as usize,
                        expected: length as usize,
                        available: (data.len() - o) as usize,
                    },
                ),
                data.len() as int,
                true,
            )
        } else {
            (Ok((o, length)), o + length, true)
        }
    }
}

/// The major-sync search finds a major sync word at or after where it starts.
proof fn lemma_first_major_sync_found(data: Seq<u8>, p: int)
    ensures
        spec_first_major_sync(data, p) matches Some(q) ==> p <= q && is_major_sync_at(data, q),
    decreases data.len() - p,
{
    if !(p < 0 || p + 4 > data.len()) && !is_major_sync_at(data, p) {
        lemma_first_major_sync_found(data, p + 1);
    }
}

/// Each step of the TrueHD walk makes progress: an access unit is at least eight bytes long,
/// starts at or after where the walk stands (exactly there once synced, else four bytes before
/// the first major sync word found) and ends inside the stream, where the next step starts,
/// synced; an error moves the walk to the end of the stream, after which it yields nothing.
pub proof fn lemma_truehd_step_progress(data: Seq<u8>, offset: int, synced: bool)
    requires
        0 <= offset <= data.len(),
    ensures
        match spec_truehd_step(data, offset, synced) {
            None => offset == data.len(),
            Some((Ok((start, len)), next, now_synced)) => {
                &&& now_synced
                &&& offset <= start
                &&& synced ==> start == offset
                &&& !synced ==> is_major_sync_at(data, start + 4)
                &&& 8 <= len
                &&& next == start + len
                &&& next <= data.len()
            },
            Some((Err(_), next, now_synced)) => next == data.len() && spec_truehd_step(
                data,
                next,
                now_synced,
            ) is None,
        },
{
    if offset < data.len() && !synced {
        let search_start = if offset + 4 > 4 {
            offset + 4
        } else {
            4
        };
        lemma_first_major_sync_found(data, search_start);
    }
}

impl<'a> RawTrueHdAccessUnitIter<'a> {
    /// Byte offset of the walk.
    pub closed spec fn position(&self) -> int {
        self.offset as int
    }

    /// Whether the first major sync word was found.
    pub closed spec fn is_synced(&self) -> bool {
        self.synced
    }

    /// The stream being walked.
    pub closed spec fn stream(&self) -> Seq<u8> {
        self.data@
    }

    /// A walk at the start of `data`, not yet synced.
    pub fn new(data: &'a [u8]) -> (it: Self)
        ensures
            it.stream() == data@,
            it.position() == 0,
            !it.is_synced(),
    {
        RawTrueHdAccessUnitIter { data, offset: 0, synced: false }
    }

    /// Start of the first access unit at or after the walk's offset.
    pub fn find_initial_access_unit_start(&self) -> (r: Option<usize>)
        requires
            self.position() <= self.stream().len(),
        ensures
            match spec_initial_access_unit_start(self.stream(), self.position()) {
                Some(s) => r == Some(s as usize) && self.position() <= s && s + 8
                    <= self.stream().len(),
                None => r is None,
            },
            r matches Some(s) ==> self.position() <= s && s + 8 <= self.stream().len(),
    {
        if self.data.len() < 8 || self.offset > self.data.len() - 8 {
            return None;
        }
        let search_start = self.offset + 4;
        let mut p = search_start;
        while p <= self.data.len() - 4
            invariant
                4 <= search_start <= p,
                search_start == self.offset + 4,
                p <= self.data@.len(),
                self.data@.len() >= 8,
                spec_first_major_sync(self.data@, search_start as int) == spec_first_major_sync(
                    self.data@,
                    p as int,
                ),
            decreases self.data@.len() - p,
        {
            if self.data[p] == 0xF8 && self.data[p + 1] == 0x72 && self.data[p + 2] == 0x6F && (
            self.data[p + 3] == 0xBA || self.data[p + 3] == 0xBB) {
                return Some(p - 4);
            }
            p += 1;
        }
        None
    }

    /// The next access unit of the stream, or the error that ends the walk.
    pub fn next(&mut self) -> (r: Option<Result<RawTrueHdAccessUnit<'a>, RawTrueHdError>>)
        requires
            old(self).position() <= old(self).stream().len(),
        ensures
            final(self).stream() == old(self).stream(),
            final(self).position() <= final(self).stream().len(),
            match spec_truehd_step(old(self).stream(), old(self).position(), old(self).is_synced()) {
                None => r is None && final(self).position() == old(self).position()
                    && final(self).is_synced() == old(self).is_synced(),
                Some((item, next, synced)) => final(self).position() == next
                    && final(self).is_synced() == synced && match item {
                    Ok((start, len)) => r matches Some(Ok(u)) && u.offset == start && u.bytes@
                        == old(self).stream().subrange(start, start + len),
                    Err(e) => r == Some(Err::<RawTrueHdAccessUnit<'a>, RawTrueHdError>(e)),
                },
            },
    {
        if self.offset >= self.data.len() {
            return None;
        }
        if !self.synced {
            match self.find_initial_access_unit_start() {
                None => {
                    let offset = self.offset;
                    self.offset = self.data.len();
                    return Some(Err(RawTrueHdError::NoMajorSync { offset }));
                },
                Some(start) => {
                    self.offset = start;
                    self.synced = true;
                },
            }
        }
        if self.data.len() - self.offset < 2 {
            let offset = self.offset;
            let available = self.data.len() - offset;
            self.offset = self.data.len();
            return Some(
                Err(RawTrueHdError::TruncatedAccessUnit { offset, expected: 2, available }),
            );
        }
        let hi = (self.data[self.offset] % 16) as usize;
        let lo = self.data[self.offset + 1] as usize;
        let length = (hi * 256 + lo) * 2;
        assert(length == spec_access_unit_length(self.data@, self.offset as int));
        if length < 8 {
            let offset = self.offset;
            self.offset = self.data.len();
            return Some(Err(RawTrueHdError::InvalidAccessUnitLength { offset, length }));
        }
        let available = self.data.len() - self.offset;
        if length > available {
            let offset = self.offset;
            self.offset = self.data.len();
            return Some(
                Err(RawTrueHdError::TruncatedAccessUnit { offset, expected: length, available }),
            );
        }
        let unit = RawTrueHdAccessUnit {
            offset: self.offset,
            bytes: slice_subrange(self.data, self.offset, self.offset + length),
        };
        self.offset = self.offset + length;
        Some(Ok(unit))
    }
}

} // verus!
