//! Extraction and validation of device preset descriptors carried in MIDI
//! System Exclusive (SysEx) byte streams.
//!
//! The library splits a raw byte buffer into sentinel-delimited frames,
//! validates the vendor signature and checksum of the first frame, and
//! decodes the preset's target address (current edit buffer, or a bank and
//! preset slot).

pub mod decode;
pub mod framing;
pub mod hex;

use vstd::prelude::*;

use crate::decode::read_syx;
use crate::decode::spec_frame_decodes;
use crate::decode::spec_model_name;
use crate::decode::spec_target;
use crate::decode::Preset;
use crate::framing::parse_sysex_messages;
use crate::framing::spec_frames;

verus! {

/// Parses a raw byte buffer of concatenated SysEx messages and decodes the
/// first frame into a preset. Returns `None` when the framing is malformed,
/// the buffer holds no frame at all, or the first frame fails validation.
pub fn parse_preset(data: &[u8]) -> (r: Option<Preset>)
    ensures
        r is Some <==> (spec_frames(data@) matches Some(frames) && frames.len() > 0
            && spec_frame_decodes(frames[0])),
        r matches Some(p) ==> ({
            let frame = spec_frames(data@)->0[0];
            p.model@ == spec_model_name(frame[4]) && p.target == spec_target(frame)
        }),
{
    let messages = match parse_sysex_messages(data) {
        Some(messages) => messages,
        None => {
            return None;
        },
    };
    if messages.len() == 0 {
        return None;
    }
    let first: &Vec<u8> = &messages[0];
    proof {
        assert(first.deep_view() =~= first@);
        assert(messages.deep_view()[0] == first.deep_view());
    }
    read_syx(first.as_slice())
}

} // verus!
