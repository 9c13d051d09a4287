//! The frame extractor: splits a raw byte buffer into SysEx frames, each
//! delimited by a start sentinel byte and an end sentinel byte (inclusive).

use vstd::prelude::*;
use vstd::slice::slice_index_get;
use vstd::slice::slice_subrange;
use vstd::slice::slice_to_vec;

verus! {

/// Every SysEx frame begins with this byte.
pub const SYSEX_MESSAGE_START_BYTE: u8 = 0xf0;

/// Every SysEx frame ends with this byte.
pub const SYSEX_MESSAGE_END_BYTE: u8 = 0xf7;

/// Index of the first end-sentinel byte in `s`, if there is one.
pub open spec fn first_end_index(s: Seq<u8>) -> Option<int>
    decreases s.len(),
{
    if s.len() == 0 {
        None
    } else if s[0] == SYSEX_MESSAGE_END_BYTE {
        Some(0int)
    } else {
        match first_end_index(s.skip(1)) {
            None => None,
            Some(i) => Some(i + 1),
        }
    }
}

/// `first_end_index` finds exactly the least position holding the end
/// sentinel: a `Some(i)` is in bounds, holds the sentinel, and nothing before
/// it does; a `None` means the sentinel occurs nowhere in `s`.
pub proof fn lemma_first_end_index(s: Seq<u8>)
    ensures
        match first_end_index(s) {
            Some(i) => 0 <= i < s.len() && s[i] == SYSEX_MESSAGE_END_BYTE && (forall|j: int|
                0 <= j < i ==> s[j] != SYSEX_MESSAGE_END_BYTE),
            None => forall|j: int| 0 <= j < s.len() ==> s[j] != SYSEX_MESSAGE_END_BYTE,
        },
    decreases s.len(),
{
    if s.len() == 0 {
    } else if s[0] == SYSEX_MESSAGE_END_BYTE {
    } else {
        lemma_first_end_index(s.skip(1));
        match first_end_index(s.skip(1)) {
            None => {
                assert forall|j: int| 0 <= j < s.len() implies s[j]
                    != SYSEX_MESSAGE_END_BYTE by {
                    if j >= 1 {
                        assert(s.skip(1)[j - 1] == s[j]);
                    }
                }
            },
            Some(i) => {
                assert(s.skip(1)[i] == s[i + 1]);
                assert forall|j: int| 0 <= j < i + 1 implies s[j]
                    != SYSEX_MESSAGE_END_BYTE by {
                    if j >= 1 {
                        assert(s.skip(1)[j - 1] == s[j]);
                    }
                }
            },
        }
    }
}

/// The sequence of frames carried by `s`: starting at each unconsumed
/// position the next byte must be the start sentinel, and the frame runs
/// through the first end sentinel after it (both inclusive). `None` when the
/// buffer is malformed: no start sentinel at the current position, or no end
/// sentinel before the buffer runs out.
pub open spec fn spec_frames(s: Seq<u8>) -> Option<Seq<Seq<u8>>>
    decreases s.len(),
    via spec_frames_decreases
{
    if s.len() == 0 {
        Some(Seq::empty())
    } else if s[0] != SYSEX_MESSAGE_START_BYTE {
        None
    } else {
        match first_end_index(s) {
            None => None,
            Some(e) => match spec_frames(s.skip(e + 1)) {
                None => None,
                Some(rest) => Some(seq![s.subrange(0, e + 1)] + rest),
            },
        }
    }
}

#[via_fn]
proof fn spec_frames_decreases(s: Seq<u8>) {
    lemma_first_end_index(s);
}

/// Finds the start sentinel, which must sit at the very first position of
/// `data`; no leading bytes are skipped.
pub fn find_sysex_message_start(data: &[u8]) -> (r: Option<usize>)
    ensures
        r == (if data@.len() > 0 && data@[0] == SYSEX_MESSAGE_START_BYTE {
            Some(0usize)
        } else {
            None::<usize>
        }),
{
    if data.len() > 0 && *slice_index_get(data, 0) == SYSEX_MESSAGE_START_BYTE {
        Some(0)
    } else {
        None
    }
}

/// Finds the first end sentinel anywhere in `data`.
pub fn find_sysex_message_end(data: &[u8]) -> (r: Option<usize>)
    ensures
        match r {
            Some(i) => first_end_index(data@) == Some(i as int),
            None => first_end_index(data@) is None,
        },
{
    let len = data.len();
    let mut index: usize = 0;
    while index < len
        invariant
            index <= len,
            len == data@.len(),
            forall|j: int| 0 <= j < index ==> data@[j] != SYSEX_MESSAGE_END_BYTE,
        decreases len - index,
    {
        if *slice_index_get(data, index) == SYSEX_MESSAGE_END_BYTE {
            proof {
                lemma_first_end_index(data@);
            }
            return Some(index);
        }
        index = index + 1;
    }
    proof {
        lemma_first_end_index(data@);
    }
    None
}

/// Splits `data` into its SysEx frames, copied out in left-to-right order.
/// Returns `None` when the buffer is malformed: some unconsumed position does
/// not hold the start sentinel, or an end sentinel is missing.
pub fn parse_sysex_messages(data: &[u8]) -> (r: Option<Vec<Vec<u8>>>)
    ensures
        match r {
            Some(messages) => spec_frames(data@) == Some(messages.deep_view()),
            None => spec_frames(data@) is None,
        },
{
    let mut messages: Vec<Vec<u8>> = Vec::new();
    let mut remainder: &[u8] = data;

    while remainder.len() > 0
        invariant
            match spec_frames(remainder@) {
                Some(rest) => spec_frames(data@) == Some(messages.deep_view() + rest),
                None => spec_frames(data@) is None,
            },
        decreases remainder@.len(),
    {
        let start = match find_sysex_message_start(remainder) {
            Some(start) => start,
            None => {
                return None;
            },
        };
        let end = match find_sysex_message_end(remainder) {
            Some(end) => end,
            None => {
                return None;
            },
        };
        proof {
            lemma_first_end_index(remainder@);
        }
        let boundary = end + 1;
        let message = slice_to_vec(slice_subrange(remainder, start, boundary));
        let ghost frame = remainder@.subrange(0, boundary as int);
        let ghost tail = remainder@.skip(boundary as int);
        let ghost earlier = messages.deep_view();
        messages.push(message);
        proof {
            assert(message.deep_view() =~= frame);
            assert(messages.deep_view() =~= earlier.push(frame));
            if spec_frames(tail) is Some {
                let rest = spec_frames(tail)->0;
                assert(spec_frames(remainder@) == Some(seq![frame] + rest));
                assert(earlier + (seq![frame] + rest) =~= earlier.push(frame) + rest);
            }
        }
        remainder = slice_subrange(remainder, boundary, remainder.len());
    }
    Some(messages)
}

/// A frame bounded by the sentinels: at least two bytes, the first the start
/// sentinel and the last the end sentinel.
pub open spec fn spec_delimited_frame(f: Seq<u8>) -> bool {
    &&& f.len() >= 2
    &&& f[0] == SYSEX_MESSAGE_START_BYTE
    &&& f[f.len() - 1] == SYSEX_MESSAGE_END_BYTE
}

/// Every frame the extractor produces is bounded by the sentinels.
pub proof fn lemma_frames_are_delimited(s: Seq<u8>)
    requires
        spec_frames(s) is Some,
    ensures
        forall|k: int|
            0 <= k < spec_frames(s)->0.len() ==> spec_delimited_frame(
                #[trigger] spec_frames(s)->0[k],
            ),
    decreases s.len(),
{
    if s.len() == 0 {
    } else {
        lemma_first_end_index(s);
        let e = first_end_index(s)->0;
        let frame = s.subrange(0, e + 1);
        let rest = spec_frames(s.skip(e + 1))->0;
        lemma_frames_are_delimited(s.skip(e + 1));
        assert(frame[0] == s[0]);
        assert(frame[e] == s[e]);
        assert forall|k: int| 0 <= k < spec_frames(s)->0.len() implies spec_delimited_frame(
            spec_frames(s)->0[k],
        ) by {
            if k >= 1 {
                assert(spec_frames(s)->0[k] == rest[k - 1]);
            }
        }
    }
}

/// The frames the extractor produces are exact spans of the input: laid end
/// to end they give the whole buffer back, so they cover it in order and do
/// not overlap.
pub proof fn lemma_frames_cover_input(s: Seq<u8>)
    requires
        spec_frames(s) is Some,
    ensures
        spec_concat_frames(spec_frames(s)->0) == s,
    decreases s.len(),
{
    if s.len() == 0 {
        assert(spec_frames(s)->0 =~= Seq::<Seq<u8>>::empty());
        assert(spec_concat_frames(spec_frames(s)->0) =~= s);
    } else {
        lemma_first_end_index(s);
        let e = first_end_index(s)->0;
        let frame = s.subrange(0, e + 1);
        let tail = s.skip(e + 1);
        let rest = spec_frames(tail)->0;
        lemma_frames_cover_input(tail);
        assert(spec_frames(s)->0 == seq![frame] + rest);
        assert((seq![frame] + rest).skip(1) =~= rest);
        assert(spec_concat_frames(seq![frame] + rest) == frame + spec_concat_frames(rest));
        assert(frame + tail =~= s);
    }
}

/// A well-formed frame on the wire: at least the two sentinels, beginning
/// with the start sentinel, ending with the end sentinel, and holding no
/// sentinel byte anywhere in between.
pub open spec fn spec_well_formed_frame(f: Seq<u8>) -> bool {
    &&& f.len() >= 2
    &&& f[0] == SYSEX_MESSAGE_START_BYTE
    &&& f[f.len() - 1] == SYSEX_MESSAGE_END_BYTE
    &&& forall|j: int|
        0 < j < f.len() - 1 ==> f[j] != SYSEX_MESSAGE_START_BYTE && f[j]
            != SYSEX_MESSAGE_END_BYTE
}

/// The bytes of a sequence of frames laid end to end.
pub open spec fn spec_concat_frames(frames: Seq<Seq<u8>>) -> Seq<u8>
    decreases frames.len(),
{
    if frames.len() == 0 {
        Seq::empty()
    } else {
        frames[0] + spec_concat_frames(frames.skip(1))
    }
}

/// Round-trip framing: a buffer laid out as well-formed frames end to end
/// extracts to exactly those frames, byte for byte and in their original
/// order.
pub proof fn lemma_frames_round_trip(frames: Seq<Seq<u8>>)
    requires
        forall|k: int| 0 <= k < frames.len() ==> spec_well_formed_frame(#[trigger] frames[k]),
    ensures
        spec_frames(spec_concat_frames(frames)) == Some(frames),
    decreases frames.len(),
{
    if frames.len() == 0 {
        assert(frames =~= Seq::<Seq<u8>>::empty());
    } else {
        let f = frames[0];
        let rest = frames.skip(1);
        let s = spec_concat_frames(frames);
        assert(forall|k: int| 0 <= k < rest.len() ==> rest[k] == frames[k + 1]);
        lemma_frames_round_trip(rest);
        assert(s == f + spec_concat_frames(rest));
        assert(spec_well_formed_frame(f));
        let e = f.len() - 1;
        assert(s[0] == f[0]);
        assert(s[e] == f[e]);
        assert forall|j: int| 0 <= j < e implies s[j] != SYSEX_MESSAGE_END_BYTE by {
            assert(s[j] == f[j]);
        }
        lemma_first_end_index(s);
        match first_end_index(s) {
            None => {
                assert(false);
            },
            Some(i) => {
                if i < e {
                    assert(s[i] != SYSEX_MESSAGE_END_BYTE);
                } else if i > e {
                    assert(s[e] != SYSEX_MESSAGE_END_BYTE);
                }
                assert(i == e);
            },
        }
        assert(s.subrange(0, e + 1) =~= f);
        assert(s.skip(e + 1) =~= spec_concat_frames(rest));
        assert(seq![f] + rest =~= frames);
    }
}

}  // verus!
