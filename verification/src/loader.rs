//! The core side of the ingestion boundary.
//!
//! An external description supplies, per track, a list of entries holding a
//! timecode string, a value, and two integer easing selectors.  This module
//! validates those plain values and builds a track from them; reading and
//! decoding the external format itself (files, markup) is the host's job.
//!
//! A failed conversion surfaces a [`LoadError`] and yields no track at all,
//! so a timeline is never left partially updated by a failed load.

use vstd::multiset::Multiset;
use vstd::prelude::*;
use vstd::string::StringSliceAdditionalSpecFns;
use vstd::utf8::encode_utf8;

use crate::easing::{function_of_index, type_of_index};
use crate::keyframe::Keyframe;
use crate::time::TrackTime;
use crate::track::{insert_all, insert_all_from, Track};

verus! {

/// A recoverable error in externally supplied track data.
#[derive(Debug, Clone, Copy, PartialEq, Eq, Structural)]
pub enum LoadError {
    /// A timecode string is not of the `HH:MM:SS:mmm` shape.
    MalformedTimecode,
    /// An easing-function selector lies outside the encoded range.
    EasingFunctionOutOfRange,
    /// An easing-type selector lies outside the encoded range.
    EasingTypeOutOfRange,
}

/// Whether `b` is an ASCII decimal digit.
pub open spec fn is_digit_byte(b: u8) -> bool {
    48 <= b <= 57
}

/// Whether `s` is a timecode field: one to seven decimal digits.
pub open spec fn is_digit_field(s: Seq<u8>) -> bool {
    1 <= s.len() <= 7 && forall|i: int| 0 <= i < s.len() ==> is_digit_byte(#[trigger] s[i])
}

/// The number the digits `s` spell.
pub open spec fn field_value(s: Seq<u8>) -> int
    decreases s.len(),
{
    if s.len() == 0 {
        0
    } else {
        field_value(s.drop_last()) * 10 + (s.last() - 48)
    }
}

/// The first index at or after `i` holding the byte `b`, or `s.len()`.
pub open spec fn find_byte_from(s: Seq<u8>, b: u8, i: int) -> int
    decreases s.len() - i,
{
    if i < 0 || i >= s.len() {
        s.len() as int
    } else if s[i] == b {
        i
    } else {
        find_byte_from(s, b, i + 1)
    }
}

/// Whether the bytes `s` spell a timecode: exactly four colon-separated
/// fields, each one to seven decimal digits, as in `00:01:30:250`.
pub open spec fn is_timecode(s: Seq<u8>) -> bool {
    let c1 = find_byte_from(s, 58, 0);
    let c2 = find_byte_from(s, 58, c1 + 1);
    let c3 = find_byte_from(s, 58, c2 + 1);
    &&& c3 < s.len()
    &&& find_byte_from(s, 58, c3 + 1) == s.len()
    &&& is_digit_field(s.subrange(0, c1))
    &&& is_digit_field(s.subrange(c1 + 1, c2))
    &&& is_digit_field(s.subrange(c2 + 1, c3))
    &&& is_digit_field(s.subrange(c3 + 1, s.len() as int))
}

/// The offset a timecode denotes, in milliseconds: the first three fields
/// count hours, minutes and seconds, the last counts milliseconds.
pub open spec fn timecode_millis(s: Seq<u8>) -> int
    recommends
        is_timecode(s),
{
    let c1 = find_byte_from(s, 58, 0);
    let c2 = find_byte_from(s, 58, c1 + 1);
    let c3 = find_byte_from(s, 58, c2 + 1);
    field_value(s.subrange(0, c1)) * 3600000 + field_value(s.subrange(c1 + 1, c2)) * 60000
        + field_value(s.subrange(c2 + 1, c3)) * 1000 + field_value(
        s.subrange(c3 + 1, s.len() as int),
    )
}

/// Ten to the power `k`.
pub open spec fn pow10(k: nat) -> int
    decreases k,
{
    if k == 0 {
        1
    } else {
        10 * pow10((k - 1) as nat)
    }
}

proof fn lemma_pow10_values()
    ensures
        pow10(6) == 1000000,
        pow10(7) == 10000000,
{
    assert(pow10(0) == 1);
    assert(pow10(1) == 10);
    assert(pow10(2) == 100);
    assert(pow10(3) == 1000);
    assert(pow10(4) == 10000);
    assert(pow10(5) == 100000);
    assert(pow10(6) == 1000000);
    assert(pow10(7) == 10000000);
}

proof fn lemma_pow10_le(k: nat, m: nat)
    requires
        k <= m,
    ensures
        1 <= pow10(k) <= pow10(m),
    decreases m,
{
    if k < m {
        lemma_pow10_le(k, (m - 1) as nat);
    } else if m > 0 {
        lemma_pow10_le((k - 1) as nat, (m - 1) as nat);
    }
}

/// The first index at or after `from` holding `target`, or the length.
fn find_byte(bytes: &[u8], from: usize, target: u8) -> (k: usize)
    requires
        from <= bytes@.len(),
    ensures
        k == find_byte_from(bytes@, target, from as int),
        from <= k <= bytes@.len(),
{
    let n = bytes.len();
    let mut k: usize = from;
    while k < n && bytes[k] != target
        invariant
            from <= k <= n,
            n == bytes@.len(),
            find_byte_from(bytes@, target, from as int) == find_byte_from(
                bytes@,
                target,
                k as int,
            ),
        decreases n - k,
    {
        k = k + 1;
    }
    k
}

/// Parses the digits `bytes[start .. end]`, or `None` if they are not a
/// valid timecode field.
fn parse_field(bytes: &[u8], start: usize, end: usize) -> (r: Option<u64>)
    requires
        start <= end <= bytes@.len(),
    ensures
        r is Some <==> is_digit_field(bytes@.subrange(start as int, end as int)),
        r is Some ==> r->0 == field_value(bytes@.subrange(start as int, end as int)) && r->0
            <= 9999999,
{
    let ghost field = bytes@.subrange(start as int, end as int);
    if end - start < 1 || end - start > 7 {
        return None;
    }
    let mut v: u64 = 0;
    let mut i: usize = start;
    while i < end
        invariant
            start <= i <= end <= bytes@.len(),
            end - start <= 7,
            field == bytes@.subrange(start as int, end as int),
            forall|j: int| 0 <= j < i - start ==> is_digit_byte(#[trigger] field[j]),
            v == field_value(bytes@.subrange(start as int, i as int)),
            v < pow10((i - start) as nat),
        decreases end - i,
    {
        let b = bytes[i];
        if b < 48 || b > 57 {
            proof {
                assert(field[i - start] == bytes@[i as int]);
            }
            return None;
        }
        proof {
            lemma_pow10_values();
            lemma_pow10_le((i - start) as nat, 6);
            assert(v < 1000000);
            assert(bytes@.subrange(start as int, i as int + 1).drop_last() =~= bytes@.subrange(
                start as int,
                i as int,
            ));
            assert(bytes@.subrange(start as int, i as int + 1).last() == bytes@[i as int]);
            assert(field[i - start] == bytes@[i as int]);
            assert(pow10((i + 1 - start) as nat) == 10 * pow10((i - start) as nat));
        }
        v = v * 10 + (b - 48) as u64;
        i = i + 1;
    }
    proof {
        lemma_pow10_values();
        lemma_pow10_le((end - start) as nat, 7);
        assert(field =~= bytes@.subrange(start as int, end as int));
    }
    Some(v)
}

/// Converts timecode text of the shape `HH:MM:SS:mmm` into a track offset:
/// `hours * 3600 + minutes * 60 + seconds` seconds plus `mmm` milliseconds.
///
/// Text that does not split into exactly four colon-separated fields of one
/// to seven decimal digits each is rejected as malformed.
pub fn timecode_to_duration(timecode: &str) -> (r: Result<TrackTime, LoadError>)
    ensures
        r is Ok <==> is_timecode(timecode.spec_bytes()),
        r is Ok ==> r->Ok_0.millis == timecode_millis(timecode.spec_bytes()),
        r is Err ==> r->Err_0 == LoadError::MalformedTimecode,
{
    let bytes: &[u8] = timecode.as_bytes();
    let n = bytes.len();
    let c1 = find_byte(bytes, 0, 58);
    if c1 == n {
        return Err(LoadError::MalformedTimecode);
    }
    let c2 = find_byte(bytes, c1 + 1, 58);
    if c2 == n {
        return Err(LoadError::MalformedTimecode);
    }
    let c3 = find_byte(bytes, c2 + 1, 58);
    if c3 == n {
        return Err(LoadError::MalformedTimecode);
    }
    let c4 = find_byte(bytes, c3 + 1, 58);
    if c4 != n {
        return Err(LoadError::MalformedTimecode);
    }
    let hours = match parse_field(bytes, 0, c1) {
        Some(v) => v,
        None => {
            return Err(LoadError::MalformedTimecode);
        },
    };
    let minutes = match parse_field(bytes, c1 + 1, c2) {
        Some(v) => v,
        None => {
            return Err(LoadError::MalformedTimecode);
        },
    };
    let seconds = match parse_field(bytes, c2 + 1, c3) {
        Some(v) => v,
        None => {
            return Err(LoadError::MalformedTimecode);
        },
    };
    let millis = match parse_field(bytes, c3 + 1, n) {
        Some(v) => v,
        None => {
            return Err(LoadError::MalformedTimecode);
        },
    };
    Ok(TrackTime::from_millis(hours * 3600000 + minutes * 60000 + seconds * 1000 + millis))
}

/// One keyframe of an external track description: a timecode string, a
/// value, and the two integer easing selectors.
#[derive(Debug, Clone)]
pub struct KeyframeEntry<T> {
    /// Easing-function selector; see `EasingFunction::from_index`.
    pub easefunc: u8,
    /// Easing-type selector; see `EasingType::from_index`.
    pub easetype: u8,
    /// Keyframe time as timecode text, `HH:MM:SS:mmm`.
    pub time: String,
    /// Keyframe value.
    pub value: T,
}

/// Whether an entry decodes: its timecode is well-shaped and both selectors
/// are in range.
pub open spec fn entry_valid<T>(e: KeyframeEntry<T>) -> bool {
    &&& is_timecode(encode_utf8(e.time@))
    &&& function_of_index(e.easefunc) is Some
    &&& type_of_index(e.easetype) is Some
}

/// The keyframe a valid entry decodes to.
pub open spec fn entry_keyframe<T>(e: KeyframeEntry<T>) -> Keyframe<T>
    recommends
        entry_valid(e),
{
    Keyframe {
        time: TrackTime { millis: timecode_millis(encode_utf8(e.time@)) as u64 },
        value: e.value,
        easing_function: function_of_index(e.easefunc).unwrap(),
        easing_type: type_of_index(e.easetype).unwrap(),
    }
}

/// The error an invalid entry is rejected with: a malformed timecode is
/// reported first, then an out-of-range function selector, then an
/// out-of-range type selector.
pub open spec fn entry_error<T>(e: KeyframeEntry<T>) -> LoadError
    recommends
        !entry_valid(e),
{
    if !is_timecode(encode_utf8(e.time@)) {
        LoadError::MalformedTimecode
    } else if function_of_index(e.easefunc) is None {
        LoadError::EasingFunctionOutOfRange
    } else {
        LoadError::EasingTypeOutOfRange
    }
}

/// Decodes one entry into a keyframe, or reports why it is invalid.
pub fn keyframe_from_entry<T: Copy>(entry: &KeyframeEntry<T>) -> (r: Result<
    Keyframe<T>,
    LoadError,
>)
    ensures
        r is Ok <==> entry_valid(*entry),
        r is Ok ==> r->Ok_0 == entry_keyframe(*entry),
        r is Err ==> r->Err_0 == entry_error(*entry),
{
    let time = match timecode_to_duration(entry.time.as_str()) {
        Ok(t) => t,
        Err(e) => {
            return Err(e);
        },
    };
    let easing_function = match crate::easing::EasingFunction::from_index(entry.easefunc) {
        Some(f) => f,
        None => {
            return Err(LoadError::EasingFunctionOutOfRange);
        },
    };
    let easing_type = match crate::easing::EasingType::from_index(entry.easetype) {
        Some(t) => t,
        None => {
            return Err(LoadError::EasingTypeOutOfRange);
        },
    };
    Ok(Keyframe { time, value: entry.value, easing_function, easing_type })
}

/// The first index at or after `i` of an invalid entry, or `es.len()`.
pub open spec fn first_invalid_from<T>(es: Seq<KeyframeEntry<T>>, i: int) -> int
    decreases es.len() - i,
{
    if i < 0 || i >= es.len() {
        es.len() as int
    } else if !entry_valid(es[i]) {
        i
    } else {
        first_invalid_from(es, i + 1)
    }
}

/// The first index of an invalid entry, or `es.len()`.
pub open spec fn first_invalid<T>(es: Seq<KeyframeEntry<T>>) -> int {
    first_invalid_from(es, 0)
}

/// Builds a track from external entries, in any order: every entry is
/// decoded and the keyframes are inserted at their sorted positions.
///
/// All or nothing: the first invalid entry is reported and no track is
/// produced, so a caller never installs a partially loaded track.
pub fn track_from_entries<T: Copy>(entries: Vec<KeyframeEntry<T>>) -> (r: Result<
    Track<T>,
    LoadError,
>)
    requires
        entries@.len() < usize::MAX,
    ensures
        r is Ok <==> first_invalid(entries@) == entries@.len(),
        r is Ok ==> r->Ok_0@ == insert_all(
            Seq::<Keyframe<T>>::empty(),
            entries@.map_values(|e: KeyframeEntry<T>| entry_keyframe(e)),
        ),
        r is Ok ==> r->Ok_0.wf(),
        r is Ok ==> r->Ok_0@.to_multiset() == entries@.map_values(
            |e: KeyframeEntry<T>| entry_keyframe(e),
        ).to_multiset(),
        r is Err ==> first_invalid(entries@) < entries@.len() && r->Err_0 == entry_error(
            entries@[first_invalid(entries@)],
        ),
{
    let ghost es = entries@;
    let ghost km = entries@.map_values(|e: KeyframeEntry<T>| entry_keyframe(e));
    let mut track: Track<T> = Track::default();
    let n = entries.len();
    let mut i: usize = 0;
    while i < n
        invariant
            n == es.len(),
            i <= n,
            entries@ == es,
            km == es.map_values(|e: KeyframeEntry<T>| entry_keyframe(e)),
            es.len() < usize::MAX,
            track.wf(),
            track@.len() == i,
            first_invalid(es) == first_invalid_from(es, i as int),
            insert_all(Seq::<Keyframe<T>>::empty(), km) == insert_all_from(
                track@,
                km,
                i as int,
            ),
        decreases n - i,
    {
        let kf = match keyframe_from_entry(&entries[i]) {
            Ok(kf) => kf,
            Err(e) => {
                return Err(e);
            },
        };
        let ghost before = track@;
        track.add_keyframe(kf);
        proof {
            assert(kf == km[i as int]);
            assert(insert_all_from(before, km, i as int) == insert_all_from(
                track@,
                km,
                i as int + 1,
            ));
        }
        i = i + 1;
    }
    proof {
        broadcast use vstd::seq_lib::group_to_multiset_ensures;

        crate::track::lemma_insert_all_multiset(Seq::<Keyframe<T>>::empty(), km);
        assert(Seq::<Keyframe<T>>::empty().to_multiset() =~= Multiset::<Keyframe<T>>::empty());
        assert(Multiset::<Keyframe<T>>::empty().add(km.to_multiset()) =~= km.to_multiset());
    }
    Ok(track)
}

} // verus!
