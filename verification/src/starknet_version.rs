//! Starknet protocol versions: four numbers, written with dots between
//! them.

use vstd::prelude::*;
use vstd::string::StringExecFns;
use vstd::string::StringSliceAdditionalSpecFns;
use vstd::utf8::{encode_utf8, is_ascii_chars, is_ascii_chars_encode_utf8};
use crate::text::{append_decimal, decimal};

verus! {

/// The byte of the dot between two segments.
pub const DOT: u8 = 0x2e;

/// The byte of the plus sign that may stand before a number.
pub const PLUS: u8 = 0x2b;

/// Why a segment is not a number of eight bits.
#[derive(Debug, Clone, Copy, PartialEq, Eq, Structural)]
pub enum SegmentError {
    /// A byte of the segment is not a decimal digit, or the segment is a
    /// plus sign alone.
    InvalidDigit,
    /// The number is above 255.
    PosOverflow,
}

/// Why a text is not a version.
#[derive(Debug, Clone, Copy, PartialEq, Eq, Structural)]
pub enum ParseVersionError {
    /// The text is empty or has more than four segments.
    InvalidFormat,
    /// A segment is not a number of eight bits.
    ParseSegment(SegmentError),
}

/// The position of the first dot of `s`, or the length of `s` where it has
/// none.
pub open spec fn first_dot(s: Seq<u8>) -> int
    decreases s.len(),
{
    if s.len() == 0 || s[0] == DOT {
        0
    } else {
        1 + first_dot(s.drop_first())
    }
}

/// The segments of `s`: the stretches between its dots, before the first
/// and after the last; one more than it has dots.
pub open spec fn split_at_dots(s: Seq<u8>) -> Seq<Seq<u8>>
    decreases s.len(),
{
    let i = first_dot(s);
    if 0 <= i < s.len() {
        seq![s.subrange(0, i)] + split_at_dots(s.subrange(i + 1, s.len() as int))
    } else {
        seq![s]
    }
}

/// Whether the byte is a decimal digit.
pub open spec fn is_digit(b: u8) -> bool {
    0x30 <= b <= 0x39
}

/// The number that the digits `s` continue from `acc`, read from the left:
/// the first byte that is no digit makes the segment invalid, the first
/// digit that takes the number above 255 makes it too large.
pub open spec fn scan_digits(s: Seq<u8>, acc: nat) -> Result<u8, SegmentError>
    decreases s.len(),
{
    if s.len() == 0 {
        Ok(acc as u8)
    } else if !is_digit(s[0]) {
        Err(SegmentError::InvalidDigit)
    } else if acc * 10 + (s[0] - 0x30) > 255 {
        Err(SegmentError::PosOverflow)
    } else {
        scan_digits(s.drop_first(), (acc * 10 + (s[0] - 0x30)) as nat)
    }
}

/// The number of one segment: zero for an empty segment, else decimal
/// digits, before which one plus sign may stand.
pub open spec fn segment_value(s: Seq<u8>) -> Result<u8, SegmentError> {
    if s.len() == 0 {
        Ok(0u8)
    } else if s[0] == PLUS {
        if s.len() == 1 {
            Err(SegmentError::InvalidDigit)
        } else {
            scan_digits(s.drop_first(), 0)
        }
    } else {
        scan_digits(s, 0)
    }
}

/// The numbers of the segments, or the error of the first segment that is
/// no number.
pub open spec fn segment_values(segments: Seq<Seq<u8>>) -> Result<Seq<u8>, SegmentError>
    decreases segments.len(),
{
    if segments.len() == 0 {
        Ok(Seq::<u8>::empty())
    } else {
        match segment_values(segments.drop_last()) {
            Err(e) => Err(e),
            Ok(values) => match segment_value(segments.last()) {
                Err(e) => Err(e),
                Ok(v) => Ok(values.push(v)),
            },
        }
    }
}

/// The four numbers of a version, from the numbers of the segments that
/// the text has: the segments it lacks count as zero.
pub open spec fn padded(values: Seq<u8>) -> Seq<u8> {
    Seq::new(
        4,
        |k: int|
            if k < values.len() {
                values[k]
            } else {
                0u8
            },
    )
}

/// The version that the text `bytes` names. A text that is empty or has
/// more than four segments has no format; else the first segment that is
/// no number decides.
pub open spec fn version_of(bytes: Seq<u8>) -> Result<Seq<u8>, ParseVersionError> {
    if bytes.len() == 0 {
        Err(ParseVersionError::InvalidFormat)
    } else if split_at_dots(bytes).len() > 4 {
        Err(ParseVersionError::InvalidFormat)
    } else {
        match segment_values(split_at_dots(bytes)) {
            Ok(values) => Ok(padded(values)),
            Err(e) => Err(ParseVersionError::ParseSegment(e)),
        }
    }
}

/// Where the first `n` bytes are no dots and a dot or the end follows, the
/// first dot is at `n`.
pub proof fn lemma_first_dot(s: Seq<u8>, n: int)
    requires
        0 <= n <= s.len(),
        forall|k: int| 0 <= k < n ==> s[k] != DOT,
        n == s.len() || s[n] == DOT,
    ensures
        first_dot(s) == n,
    decreases s.len(),
{
    if n > 0 {
        let t = s.drop_first();
        assert forall|k: int| 0 <= k < n - 1 implies t[k] != DOT by {
            assert(t[k] == s[k + 1]);
        }
        lemma_first_dot(t, n - 1);
    }
}

/// The numbers of the segments up to one segment and that segment's
/// number give the numbers up to and with it.
pub proof fn lemma_values_push(segments: Seq<Seq<u8>>, segment: Seq<u8>)
    ensures
        segment_values(segments.push(segment)) == match segment_values(segments) {
            Err(e) => Err(e),
            Ok(values) => match segment_value(segment) {
                Err(e) => Err(e),
                Ok(v) => Ok(values.push(v)),
            },
        },
        segment_values(segments) matches Ok(values) ==> values.len() == segments.len(),
    decreases segments.len(),
{
    assert(segments.push(segment).drop_last() =~= segments);
    if segments.len() > 0 {
        lemma_values_push(segments.drop_last(), segments.last());
        assert(segments.drop_last().push(segments.last()) =~= segments);
    }
}

/// Starknet protocol version.
#[derive(Debug, Clone, Copy, PartialEq, Eq)]
pub struct StarknetVersion {
    /// Each segments represents a part of the version number.
    segments: [u8; 4],
}

/// An error when the version doesn't correspond to any of the official Starknet releases.
#[derive(Debug, Clone, Copy, PartialEq, Eq)]
pub struct InvalidVersionError(pub StarknetVersion);

/// The official releases of the protocol.
#[derive(Debug, Clone, Copy, PartialEq, Eq, Structural)]
pub enum ProtocolRelease {
    V0_9_1,
    V0_10_0,
    V0_10_1,
    V0_10_2,
    V0_10_3,
    V0_11_0,
    V0_11_0_2,
    V0_11_1,
    V0_11_2,
    V0_12_0,
    V0_12_1,
    V0_12_2,
    V0_12_3,
    V0_13_0,
    V0_13_1,
    V0_13_2,
    V0_13_2_1,
    V0_13_3,
    V0_13_4,
    V0_13_5,
    V0_14_0,
}

/// The official release that four version numbers name, if they name one.
pub open spec fn release_of(s: Seq<u8>) -> Option<ProtocolRelease> {
    if s[0] != 0 {
        None
    } else if s[1] == 9 && s[2] == 1 && s[3] == 0 {
        Some(ProtocolRelease::V0_9_1)
    } else if s[1] == 10 && s[2] == 0 && s[3] == 0 {
        Some(ProtocolRelease::V0_10_0)
    } else if s[1] == 10 && s[2] == 1 && s[3] == 0 {
        Some(ProtocolRelease::V0_10_1)
    } else if s[1] == 10 && s[2] == 2 && s[3] == 0 {
        Some(ProtocolRelease::V0_10_2)
    } else if s[1] == 10 && s[2] == 3 && s[3] == 0 {
        Some(ProtocolRelease::V0_10_3)
    } else if s[1] == 11 && s[2] == 0 && s[3] == 0 {
        Some(ProtocolRelease::V0_11_0)
    } else if s[1] == 11 && s[2] == 0 && s[3] == 2 {
        Some(ProtocolRelease::V0_11_0_2)
    } else if s[1] == 11 && s[2] == 1 && s[3] == 0 {
        Some(ProtocolRelease::V0_11_1)
    } else if s[1] == 11 && s[2] == 2 && s[3] == 0 {
        Some(ProtocolRelease::V0_11_2)
    } else if s[1] == 12 && s[2] == 0 && s[3] == 0 {
        Some(ProtocolRelease::V0_12_0)
    } else if s[1] == 12 && s[2] == 1 && s[3] == 0 {
        Some(ProtocolRelease::V0_12_1)
    } else if s[1] == 12 && s[2] == 2 && s[3] == 0 {
        Some(ProtocolRelease::V0_12_2)
    } else if s[1] == 12 && s[2] == 3 && s[3] == 0 {
        Some(ProtocolRelease::V0_12_3)
    } else if s[1] == 13 && s[2] == 0 && s[3] == 0 {
        Some(ProtocolRelease::V0_13_0)
    } else if s[1] == 13 && s[2] == 1 && s[3] == 0 {
        Some(ProtocolRelease::V0_13_1)
    } else if s[1] == 13 && s[2] == 1 && s[3] == 1 {
        Some(ProtocolRelease::V0_13_3)
    } else if s[1] == 13 && s[2] == 2 && s[3] == 0 {
        Some(ProtocolRelease::V0_13_2)
    } else if s[1] == 13 && s[2] == 2 && s[3] == 1 {
        Some(ProtocolRelease::V0_13_2_1)
    } else if s[1] == 13 && s[2] == 3 && s[3] == 0 {
        Some(ProtocolRelease::V0_13_3)
    } else if s[1] == 13 && s[2] == 4 && s[3] == 0 {
        Some(ProtocolRelease::V0_13_4)
    } else if s[1] == 13 && s[2] == 5 && s[3] == 0 {
        Some(ProtocolRelease::V0_13_5)
    } else if s[1] == 14 && s[2] == 0 && s[3] == 0 {
        Some(ProtocolRelease::V0_14_0)
    } else {
        None
    }
}

/// The text of a version: the first three numbers with dots between them,
/// and a dot and the fourth number where it is not zero.
pub open spec fn version_text(s: Seq<u8>) -> Seq<char> {
    decimal(s[0] as nat) + "."@ + decimal(s[1] as nat) + "."@ + decimal(s[2] as nat) + if s[3]
        != 0 {
        "."@ + decimal(s[3] as nat)
    } else {
        Seq::<char>::empty()
    }
}

/// The stretches of `bytes` between the given bounds.
pub open spec fn segments_at(bytes: Seq<u8>, starts: Seq<usize>, ends: Seq<usize>) -> Seq<Seq<u8>> {
    Seq::new(starts.len(), |k: int| bytes.subrange(starts[k] as int, ends[k] as int))
}

/// The bounds name stretches of `bytes`.
pub open spec fn bounds_fit(bytes: Seq<u8>, starts: Seq<usize>, ends: Seq<usize>) -> bool {
    &&& starts.len() == ends.len()
    &&& forall|k: int| 0 <= k < starts.len() ==> #[trigger] starts[k] <= ends[k] <= bytes.len()
}

/// Reads the number of the segment of `bytes` from `start` to `end`.
fn parse_segment(bytes: &[u8], start: usize, end: usize) -> (r: Result<u8, SegmentError>)
    requires
        start <= end <= bytes@.len(),
    ensures
        r == segment_value(bytes@.subrange(start as int, end as int)),
{
    let ghost segment = bytes@.subrange(start as int, end as int);
    if start == end {
        return Ok(0);
    }
    let mut i = start;
    if bytes[start] == PLUS {
        if end - start == 1 {
            return Err(SegmentError::InvalidDigit);
        }
        i = start + 1;
    }
    let ghost digits = bytes@.subrange(i as int, end as int);
    proof {
        if i > start {
            assert(segment.drop_first() =~= digits);
        } else {
            assert(segment =~= digits);
        }
    }
    let mut acc: u8 = 0;
    while i < end
        invariant
            start <= i <= end <= bytes@.len(),
            segment == bytes@.subrange(start as int, end as int),
            segment_value(segment) == scan_digits(bytes@.subrange(i as int, end as int), acc as nat),
        decreases end - i,
    {
        let b = bytes[i];
        proof {
            let rest = bytes@.subrange(i as int, end as int);
            assert(rest[0] == b);
            assert(rest.drop_first() =~= bytes@.subrange(i + 1, end as int));
        }
        if b < 0x30 || b > 0x39 {
            return Err(SegmentError::InvalidDigit);
        }
        let d = b - 0x30;
        if acc > 25 || (acc == 25 && d > 5) {
            return Err(SegmentError::PosOverflow);
        }
        acc = acc * 10 + d;
        i += 1;
    }
    Ok(acc)
}

impl StarknetVersion {
    /// The four numbers of the version.
    pub closed spec fn numbers(self) -> Seq<u8> {
        self.segments@
    }

    pub fn new(segments: [u8; 4]) -> (version: Self)
        ensures
            version.numbers() == segments@,
    {
        StarknetVersion { segments }
    }

    /// The currently supported version of the Starknet protocol: 0.13.1.1.
    pub fn current() -> (version: Self)
        ensures
            version.numbers() == seq![0u8, 13u8, 1u8, 1u8],
    {
        let version = StarknetVersion { segments: [0, 13, 1, 1] };
        proof {
            assert(version.numbers() =~= seq![0u8, 13u8, 1u8, 1u8]);
        }
        version
    }

    /// The four numbers of the version.
    pub fn segments(&self) -> (segments: [u8; 4])
        ensures
            segments@ == self.numbers(),
    {
        self.segments
    }

    /// Parses a version string in the format `x.y.z.w` where x, y, z, w are u8 numbers.
    /// The string can have fewer than 4 segments; missing segments are filled with zeros.
    pub fn parse(version: &str) -> (r: Result<Self, ParseVersionError>)
        ensures
            match r {
                Ok(v) => version_of(version.spec_bytes()) == Ok::<Seq<u8>, ParseVersionError>(
                    v.numbers(),
                ),
                Err(e) => version_of(version.spec_bytes()) == Err::<Seq<u8>, ParseVersionError>(e),
            },
    {
        let bytes = version.as_bytes();
        Self::parse_bytes(bytes)
    }

    /// Parses the bytes of a version string.
    pub fn parse_bytes(bytes: &[u8]) -> (r: Result<Self, ParseVersionError>)
        ensures
            match r {
                Ok(v) => version_of(bytes@) == Ok::<Seq<u8>, ParseVersionError>(v.numbers()),
                Err(e) => version_of(bytes@) == Err::<Seq<u8>, ParseVersionError>(e),
            },
    {
        let n = bytes.len();
        if n == 0 {
            return Err(ParseVersionError::InvalidFormat);
        }
        // The bounds of the segments, in the order of the text.
        let mut starts: Vec<usize> = Vec::new();
        let mut ends: Vec<usize> = Vec::new();
        let mut start: usize = 0;
        let mut closed = false;
        proof {
            assert(bytes@.subrange(0, n as int) =~= bytes@);
            assert(segments_at(bytes@, starts@, ends@) + split_at_dots(bytes@) =~= split_at_dots(
                bytes@,
            ));
        }
        while !closed
            invariant
                n == bytes@.len(),
                start <= n,
                bounds_fit(bytes@, starts@, ends@),
                !closed ==> split_at_dots(bytes@) == segments_at(bytes@, starts@, ends@)
                    + split_at_dots(bytes@.subrange(start as int, n as int)),
                closed ==> split_at_dots(bytes@) == segments_at(bytes@, starts@, ends@),
            decreases n - start + if closed { 0int } else { 1int },
        {
            let mut end = start;
            while end < n && bytes[end] != DOT
                invariant
                    start <= end <= n,
                    n == bytes@.len(),
                    forall|k: int| start <= k < end ==> bytes@[k] != DOT,
                decreases n - end,
            {
                end += 1;
            }
            let ghost rest = bytes@.subrange(start as int, n as int);
            let ghost done = segments_at(bytes@, starts@, ends@);
            starts.push(start);
            ends.push(end);
            proof {
                assert forall|k: int| 0 <= k < end - start implies rest[k] != DOT by {
                    assert(rest[k] == bytes@[start + k]);
                }
                lemma_first_dot(rest, end - start);
                assert(rest.subrange(0, end - start) =~= bytes@.subrange(start as int, end as int));
                let now = segments_at(bytes@, starts@, ends@);
                assert(now =~= done.push(bytes@.subrange(start as int, end as int)));
                if end < n {
                    assert(rest.subrange(end - start + 1, rest.len() as int) =~= bytes@.subrange(
                        end + 1,
                        n as int,
                    ));
                    assert(done + (seq![rest.subrange(0, end - start)] + split_at_dots(
                        rest.subrange(end - start + 1, rest.len() as int),
                    )) =~= now + split_at_dots(bytes@.subrange(end + 1, n as int)));
                } else {
                    assert(rest.subrange(0, end - start) =~= rest);
                    assert(done + seq![rest] =~= now);
                }
            }
            if end < n {
                start = end + 1;
            } else {
                closed = true;
            }
        }
        if starts.len() > 4 {
            return Err(ParseVersionError::InvalidFormat);
        }
        let ghost done = segments_at(bytes@, starts@, ends@);
        let mut buffer: [u8; 4] = [0, 0, 0, 0];
        let mut k: usize = 0;
        let ghost mut values: Seq<u8> = Seq::empty();
        proof {
            assert(buffer@ =~= padded(values));
        }
        while k < starts.len()
            invariant
                k <= starts@.len() <= 4,
                bytes@.len() > 0,
                bounds_fit(bytes@, starts@, ends@),
                done == segments_at(bytes@, starts@, ends@),
                split_at_dots(bytes@) == done,
                segment_values(done.subrange(0, k as int)) == Ok::<Seq<u8>, SegmentError>(values),
                values.len() == k,
                buffer@ == padded(values),
            decreases starts@.len() - k,
        {
            proof {
                assert(done.subrange(0, k + 1) =~= done.subrange(0, k as int).push(done[k as int]));
                lemma_values_push(done.subrange(0, k as int), done[k as int]);
            }
            match parse_segment(bytes, starts[k], ends[k]) {
                Ok(v) => {
                    buffer[k] = v;
                    proof {
                        assert(buffer@ =~= padded(values.push(v)));
                        values = values.push(v);
                    }
                },
                Err(e) => {
                    proof {
                        lemma_values_error_stays(done, k + 1, e);
                    }
                    return Err(ParseVersionError::ParseSegment(e));
                },
            }
            k += 1;
        }
        proof {
            assert(done.subrange(0, k as int) =~= done);
        }
        Ok(StarknetVersion { segments: buffer })
    }

    /// The version as text, where each segment is separated by a dot. The
    /// last segment (fourth part) is not printed if it's zero.
    pub fn to_text(&self) -> (s: String)
        ensures
            s@ == version_text(self.numbers()),
    {
        let mut s = String::new();
        append_decimal(&mut s, self.segments[0] as u64);
        s.append(".");
        append_decimal(&mut s, self.segments[1] as u64);
        s.append(".");
        append_decimal(&mut s, self.segments[2] as u64);
        if self.segments[3] != 0 {
            s.append(".");
            append_decimal(&mut s, self.segments[3] as u64);
        }
        proof {
            assert(s@ =~= version_text(self.numbers()));
        }
        s
    }

    /// Parses the version that a string holds.
    pub fn from_string(value: String) -> (r: Result<Self, ParseVersionError>)
        ensures
            match r {
                Ok(v) => version_of(encode_utf8(value@)) == Ok::<
                    Seq<u8>,
                    ParseVersionError,
                >(v.numbers()),
                Err(e) => version_of(encode_utf8(value@)) == Err::<
                    Seq<u8>,
                    ParseVersionError,
                >(e),
            },
    {
        StarknetVersion::parse(value.as_str())
    }

    /// The official release that the version names.
    pub fn release(&self) -> (r: Result<ProtocolRelease, InvalidVersionError>)
        ensures
            match r {
                Ok(release) => release_of(self.numbers()) == Some(release),
                Err(e) => release_of(self.numbers()) is None && e.0 == *self,
            },
    {
        let s = self.segments;
        let n0 = s[0];
        let n1 = s[1];
        let n2 = s[2];
        let n3 = s[3];
        if n0 != 0 {
            Err(InvalidVersionError(*self))
        } else if n1 == 9 && n2 == 1 && n3 == 0 {
            Ok(ProtocolRelease::V0_9_1)
        } else if n1 == 10 && n2 == 0 && n3 == 0 {
            Ok(ProtocolRelease::V0_10_0)
        } else if n1 == 10 && n2 == 1 && n3 == 0 {
            Ok(ProtocolRelease::V0_10_1)
        } else if n1 == 10 && n2 == 2 && n3 == 0 {
            Ok(ProtocolRelease::V0_10_2)
        } else if n1 == 10 && n2 == 3 && n3 == 0 {
            Ok(ProtocolRelease::V0_10_3)
        } else if n1 == 11 && n2 == 0 && n3 == 0 {
            Ok(ProtocolRelease::V0_11_0)
        } else if n1 == 11 && n2 == 0 && n3 == 2 {
            Ok(ProtocolRelease::V0_11_0_2)
        } else if n1 == 11 && n2 == 1 && n3 == 0 {
            Ok(ProtocolRelease::V0_11_1)
        } else if n1 == 11 && n2 == 2 && n3 == 0 {
            Ok(ProtocolRelease::V0_11_2)
        } else if n1 == 12 && n2 == 0 && n3 == 0 {
            Ok(ProtocolRelease::V0_12_0)
        } else if n1 == 12 && n2 == 1 && n3 == 0 {
            Ok(ProtocolRelease::V0_12_1)
        } else if n1 == 12 && n2 == 2 && n3 == 0 {
            Ok(ProtocolRelease::V0_12_2)
        } else if n1 == 12 && n2 == 3 && n3 == 0 {
            Ok(ProtocolRelease::V0_12_3)
        } else if n1 == 13 && n2 == 0 && n3 == 0 {
            Ok(ProtocolRelease::V0_13_0)
        } else if n1 == 13 && n2 == 1 && n3 == 0 {
            Ok(ProtocolRelease::V0_13_1)
        } else if n1 == 13 && n2 == 1 && n3 == 1 {
            Ok(ProtocolRelease::V0_13_3)
        } else if n1 == 13 && n2 == 2 && n3 == 0 {
            Ok(ProtocolRelease::V0_13_2)
        } else if n1 == 13 && n2 == 2 && n3 == 1 {
            Ok(ProtocolRelease::V0_13_2_1)
        } else if n1 == 13 && n2 == 3 && n3 == 0 {
            Ok(ProtocolRelease::V0_13_3)
        } else if n1 == 13 && n2 == 4 && n3 == 0 {
            Ok(ProtocolRelease::V0_13_4)
        } else if n1 == 13 && n2 == 5 && n3 == 0 {
            Ok(ProtocolRelease::V0_13_5)
        } else if n1 == 14 && n2 == 0 && n3 == 0 {
            Ok(ProtocolRelease::V0_14_0)
        } else {
            Err(InvalidVersionError(*self))
        }
    }
}

/// Once a segment is no number, the segments after it change nothing.
pub proof fn lemma_values_error_stays(segments: Seq<Seq<u8>>, upto: int, e: SegmentError)
    requires
        0 <= upto <= segments.len(),
        segment_values(segments.subrange(0, upto)) == Err::<Seq<u8>, SegmentError>(e),
    ensures
        segment_values(segments) == Err::<Seq<u8>, SegmentError>(e),
    decreases segments.len() - upto,
{
    if upto < segments.len() {
        assert(segments.subrange(0, upto + 1) =~= segments.subrange(0, upto).push(segments[upto]));
        lemma_values_push(segments.subrange(0, upto), segments[upto]);
        lemma_values_error_stays(segments, upto + 1, e);
    } else {
        assert(segments.subrange(0, upto) =~= segments);
    }
}

impl Default for StarknetVersion {
    fn default() -> (version: Self)
        ensures
            version.numbers() == seq![0u8, 13u8, 1u8, 1u8],
    {
        StarknetVersion::current()
    }
}

impl ParseVersionError {
    /// The words of the error.
    pub open spec fn message_text(self) -> Seq<char> {
        match self {
            ParseVersionError::InvalidFormat => "invalid version format"@,
            ParseVersionError::ParseSegment(SegmentError::InvalidDigit) => "failed to parse segment: invalid digit found in string"@,
            ParseVersionError::ParseSegment(SegmentError::PosOverflow) => "failed to parse segment: number too large to fit in target type"@,
        }
    }

    /// The words of the error.
    pub fn message(&self) -> (s: String)
        ensures
            s@ == self.message_text(),
    {
        match self {
            ParseVersionError::InvalidFormat => String::from_str("invalid version format"),
            ParseVersionError::ParseSegment(SegmentError::InvalidDigit) => String::from_str(
                "failed to parse segment: invalid digit found in string",
            ),
            ParseVersionError::ParseSegment(SegmentError::PosOverflow) => String::from_str(
                "failed to parse segment: number too large to fit in target type",
            ),
        }
    }
}

impl InvalidVersionError {
    /// The words of the error.
    pub fn message(&self) -> (s: String)
        ensures
            s@ == "invalid version: "@ + version_text(self.0.numbers()),
    {
        let mut s = String::from_str("invalid version: ");
        let text = self.0.to_text();
        s.append(text.as_str());
        s
    }
}


/// The bytes of the decimal numeral of `n`.
pub open spec fn decimal_bytes(n: nat) -> Seq<u8>
    decreases n,
{
    if n < 10 {
        seq![(0x30 + n) as u8]
    } else {
        decimal_bytes(n / 10).push((0x30 + n % 10) as u8)
    }
}

/// The bytes of the text of a version.
pub open spec fn version_bytes(s: Seq<u8>) -> Seq<u8> {
    decimal_bytes(s[0] as nat) + seq![DOT] + decimal_bytes(s[1] as nat) + seq![DOT] + decimal_bytes(
        s[2] as nat,
    ) + if s[3] != 0 {
        seq![DOT] + decimal_bytes(s[3] as nat)
    } else {
        Seq::<u8>::empty()
    }
}

/// A decimal numeral has a digit at least, and digits only.
pub proof fn lemma_decimal_bytes_are_digits(n: nat)
    ensures
        decimal_bytes(n).len() >= 1,
        forall|i: int| 0 <= i < decimal_bytes(n).len() ==> is_digit(#[trigger] decimal_bytes(n)[i]),
    decreases n,
{
    if n >= 10 {
        lemma_decimal_bytes_are_digits(n / 10);
    }
}

/// Reading one more digit continues the number that the digits before it
/// gave.
pub proof fn lemma_scan_one_more(s: Seq<u8>, acc: nat, d: u8)
    requires
        acc <= 255,
        is_digit(d),
    ensures
        scan_digits(s.push(d), acc) == match scan_digits(s, acc) {
            Ok(x) => if x * 10 + (d - 0x30) > 255 {
                Err::<u8, SegmentError>(SegmentError::PosOverflow)
            } else {
                Ok::<u8, SegmentError>((x * 10 + (d - 0x30)) as u8)
            },
            Err(e) => Err(e),
        },
    decreases s.len(),
{
    let t = s.push(d);
    if s.len() == 0 {
        assert(t.drop_first() =~= Seq::<u8>::empty());
        assert(t[0] == d);
        if acc * 10 + (d - 0x30) <= 255 {
            assert(scan_digits(t.drop_first(), (acc * 10 + (d - 0x30)) as nat) == Ok::<
                u8,
                SegmentError,
            >((acc * 10 + (d - 0x30)) as u8));
        }
    } else {
        assert(t[0] == s[0]);
        assert(t.drop_first() =~= s.drop_first().push(d));
        if is_digit(s[0]) && acc * 10 + (s[0] - 0x30) <= 255 {
            lemma_scan_one_more(s.drop_first(), (acc * 10 + (s[0] - 0x30)) as nat, d);
        }
    }
}

/// The decimal numeral of a number of eight bits is read as that number.
pub proof fn lemma_decimal_is_read_back(n: nat)
    requires
        n <= 255,
    ensures
        segment_value(decimal_bytes(n)) == Ok::<u8, SegmentError>(n as u8),
    decreases n,
{
    lemma_decimal_bytes_are_digits(n);
    let s = decimal_bytes(n);
    assert(is_digit(s[0]));
    assert(scan_digits(s, 0) == Ok::<u8, SegmentError>(n as u8)) by {
        lemma_scan_from_zero(n);
    }
}

/// The digits of a number of eight bits, read from zero, give the number.
pub proof fn lemma_scan_from_zero(n: nat)
    requires
        n <= 255,
    ensures
        scan_digits(decimal_bytes(n), 0) == Ok::<u8, SegmentError>(n as u8),
    decreases n,
{
    if n < 10 {
        let s = decimal_bytes(n);
        assert(s.drop_first() =~= Seq::<u8>::empty());
        assert(scan_digits(s.drop_first(), n) == Ok::<u8, SegmentError>(n as u8));
    } else {
        lemma_scan_from_zero(n / 10);
        lemma_scan_one_more(decimal_bytes(n / 10), 0, (0x30 + n % 10) as u8);
    }
}

/// A stretch without dots before a dot is the first segment, and the
/// segments of what follows the dot are the other segments.
pub proof fn lemma_split_first(a: Seq<u8>, rest: Seq<u8>)
    requires
        forall|i: int| 0 <= i < a.len() ==> a[i] != DOT,
    ensures
        split_at_dots(a + seq![DOT] + rest) == seq![a] + split_at_dots(rest),
        split_at_dots(a) == seq![a],
{
    let whole = a + seq![DOT] + rest;
    assert forall|k: int| 0 <= k < a.len() implies whole[k] != DOT by {
        assert(whole[k] == a[k]);
    }
    assert(whole[a.len() as int] == DOT);
    lemma_first_dot(whole, a.len() as int);
    assert(whole.subrange(0, a.len() as int) =~= a);
    assert(whole.subrange(a.len() as int + 1, whole.len() as int) =~= rest);
    lemma_first_dot(a, a.len() as int);
}

/// Round trip: the text of a version is read as that version.
pub proof fn law_text_is_read_back(s: Seq<u8>)
    requires
        s.len() == 4,
    ensures
        version_of(version_bytes(s)) == Ok::<Seq<u8>, ParseVersionError>(s),
{
    let d0 = decimal_bytes(s[0] as nat);
    let d1 = decimal_bytes(s[1] as nat);
    let d2 = decimal_bytes(s[2] as nat);
    let d3 = decimal_bytes(s[3] as nat);
    lemma_decimal_bytes_are_digits(s[0] as nat);
    lemma_decimal_bytes_are_digits(s[1] as nat);
    lemma_decimal_bytes_are_digits(s[2] as nat);
    lemma_decimal_bytes_are_digits(s[3] as nat);
    lemma_decimal_is_read_back(s[0] as nat);
    lemma_decimal_is_read_back(s[1] as nat);
    lemma_decimal_is_read_back(s[2] as nat);
    lemma_decimal_is_read_back(s[3] as nat);
    let none = Seq::<Seq<u8>>::empty();
    lemma_values_push(none, d0);
    lemma_values_push(none.push(d0), d1);
    lemma_values_push(none.push(d0).push(d1), d2);
    lemma_values_push(none.push(d0).push(d1).push(d2), d3);
    assert(segment_values(none) == Ok::<Seq<u8>, SegmentError>(Seq::<u8>::empty()));
    if s[3] != 0 {
        let tail2 = d2 + seq![DOT] + d3;
        let tail1 = d1 + seq![DOT] + tail2;
        assert(version_bytes(s) =~= d0 + seq![DOT] + tail1);
        lemma_split_first(d3, Seq::<u8>::empty());
        lemma_split_first(d2, d3);
        lemma_split_first(d1, tail2);
        lemma_split_first(d0, tail1);
        let segments = none.push(d0).push(d1).push(d2).push(d3);
        assert(split_at_dots(version_bytes(s)) =~= segments);
        let values = Seq::<u8>::empty().push(s[0]).push(s[1]).push(s[2]).push(s[3]);
        assert(segment_values(segments) == Ok::<Seq<u8>, SegmentError>(values));
        assert(padded(values) =~= s);
    } else {
        let tail1 = d1 + seq![DOT] + d2;
        assert(version_bytes(s) =~= d0 + seq![DOT] + tail1);
        lemma_split_first(d2, Seq::<u8>::empty());
        lemma_split_first(d1, d2);
        lemma_split_first(d0, tail1);
        let segments = none.push(d0).push(d1).push(d2);
        assert(split_at_dots(version_bytes(s)) =~= segments);
        let values = Seq::<u8>::empty().push(s[0]).push(s[1]).push(s[2]);
        assert(segment_values(segments) == Ok::<Seq<u8>, SegmentError>(values));
        assert(padded(values) =~= s);
    }
}


/// The bytes of a text of one-byte characters.
pub open spec fn bytes_of(chars: Seq<char>) -> Seq<u8> {
    Seq::new(chars.len(), |i: int| chars[i] as u8)
}

/// The decimal numeral of a number is made of one-byte characters, and
/// its bytes are the bytes of the numeral.
pub proof fn lemma_decimal_text_bytes(n: nat)
    ensures
        is_ascii_chars(decimal(n)),
        bytes_of(decimal(n)) == decimal_bytes(n),
    decreases n,
{
    if n < 10 {
        assert(bytes_of(decimal(n)) =~= decimal_bytes(n));
    } else {
        lemma_decimal_text_bytes(n / 10);
        let head = decimal(n / 10);
        assert forall|i: int| 0 <= i < decimal(n).len() implies '\0' <= #[trigger] decimal(n)[i]
            <= '\u{7f}' by {
            if i < head.len() {
                assert(decimal(n)[i] == head[i]);
            }
        }
        assert forall|i: int| 0 <= i < decimal(n).len() implies bytes_of(decimal(n))[i]
            == decimal_bytes(n)[i] by {
            if i < head.len() {
                assert(decimal(n)[i] == head[i]);
                assert(bytes_of(head)[i] == decimal_bytes(n / 10)[i]);
            }
        }
        assert(bytes_of(decimal(n)) =~= decimal_bytes(n));
    }
}

/// The text of a version is made of one-byte characters, and its bytes
/// are the bytes of the version's text.
pub proof fn lemma_version_text_bytes(s: Seq<u8>)
    requires
        s.len() == 4,
    ensures
        is_ascii_chars(version_text(s)),
        encode_utf8(version_text(s)) == version_bytes(s),
{
    reveal_strlit(".");
    lemma_decimal_text_bytes(s[0] as nat);
    lemma_decimal_text_bytes(s[1] as nat);
    lemma_decimal_text_bytes(s[2] as nat);
    lemma_decimal_text_bytes(s[3] as nat);
    let t0 = decimal(s[0] as nat);
    let t1 = decimal(s[1] as nat);
    let t2 = decimal(s[2] as nat);
    let t3 = decimal(s[3] as nat);
    let dot = "."@;
    assert(dot =~= seq!['.']);
    assert(bytes_of(dot) =~= seq![DOT]);
    let text = version_text(s);
    let tail: Seq<char> = if s[3] != 0 {
        dot + t3
    } else {
        Seq::<char>::empty()
    };
    assert(text == t0 + dot + t1 + dot + t2 + tail);
    lemma_bytes_of_concat(t0, dot);
    lemma_bytes_of_concat(t0 + dot, t1);
    lemma_bytes_of_concat(t0 + dot + t1, dot);
    lemma_bytes_of_concat(t0 + dot + t1 + dot, t2);
    lemma_bytes_of_concat(dot, t3);
    lemma_bytes_of_concat(t0 + dot + t1 + dot + t2, tail);
    assert(bytes_of(Seq::<char>::empty()) =~= Seq::<u8>::empty());
    assert(bytes_of(text) =~= version_bytes(s));
    is_ascii_chars_encode_utf8(text);
    assert(encode_utf8(text) =~= bytes_of(text));
}

/// The bytes of two texts of one-byte characters, one after the other,
/// are the bytes of the first and then the bytes of the second.
pub proof fn lemma_bytes_of_concat(a: Seq<char>, b: Seq<char>)
    requires
        is_ascii_chars(a),
        is_ascii_chars(b),
    ensures
        is_ascii_chars(a + b),
        bytes_of(a + b) == bytes_of(a) + bytes_of(b),
{
    assert forall|i: int| 0 <= i < (a + b).len() implies '\0' <= #[trigger] (a + b)[i]
        <= '\u{7f}' by {
        if i < a.len() {
            assert((a + b)[i] == a[i]);
        } else {
            assert((a + b)[i] == b[i - a.len()]);
        }
    }
    assert(bytes_of(a + b) =~= bytes_of(a) + bytes_of(b));
}

/// Round trip: the text that a version is written as is parsed as that
/// version.
pub proof fn law_version_text_round_trip(version: StarknetVersion)
    ensures
        version_of(encode_utf8(version_text(version.numbers()))) == Ok::<
            Seq<u8>,
            ParseVersionError,
        >(version.numbers()),
{
    let s = version.numbers();
    assert(s.len() == 4);
    lemma_version_text_bytes(s);
    law_text_is_read_back(s);
}

} // verus!
