//! The preset decoder: validates a single SysEx frame's vendor signature and
//! checksum, and decodes the preset's hardware model and target address.

use vstd::prelude::*;
use vstd::slice::slice_index_get;

verus! {

/// A decoded preset descriptor.
#[derive(Debug)]
pub struct Preset {
    /// Display name of the originating hardware model.
    pub model: &'static str,
    /// Where the preset is addressed to on the device.
    pub target: Target,
}

/// Where a preset is addressed to on the device.
#[derive(Debug)]
pub enum Target {
    /// The device's live working state rather than a persisted slot.
    CurrentEditBuffer,
    /// A persisted storage location, identified by two 7-bit numbers.
    BankAndPreset { bank: u8, preset: u8 },
}

/// A frame carrying a preset targets the current edit buffer when the target
/// selector byte holds this value; any other value names a bank.
pub const CURRENT_EDIT_BUFFER_SELECTOR: u8 = 0x7f;

/// Whether the frame's header carries the recognized vendor signature at
/// offsets 1 through 3 and a recognized message-type code at offset 5.
pub open spec fn spec_header_valid(s: Seq<u8>) -> bool
    recommends
        s.len() >= 6,
{
    &&& s[1] == 0x00
    &&& s[2] == 0x01
    &&& s[3] == 0x74
    &&& (s[5] == 0x77 || s[5] == 0x7a || s[5] == 0x04)
}

/// XOR of all bytes of `s` (0 for the empty sequence).
pub open spec fn xor_fold(s: Seq<u8>) -> u8
    decreases s.len(),
{
    if s.len() == 0 {
        0
    } else {
        xor_fold(s.drop_last()) ^ s.last()
    }
}

/// The checksum a frame must carry in its second-to-last byte: the XOR of
/// every byte before that position, masked to the low 7 bits so the value is
/// a clean MIDI data byte.
pub open spec fn spec_checksum(s: Seq<u8>) -> u8
    recommends
        s.len() >= 2,
{
    xor_fold(s.subrange(0, s.len() - 2)) & 0x7f
}

/// The target address encoded at offsets 6 and 7 of a frame.
pub open spec fn spec_target(s: Seq<u8>) -> Target
    recommends
        s.len() >= 8,
{
    if s[6] == CURRENT_EDIT_BUFFER_SELECTOR {
        Target::CurrentEditBuffer
    } else {
        Target::BankAndPreset { bank: s[6], preset: s[7] }
    }
}

/// The display name for a device model code; codes outside the table resolve
/// to a generic label rather than failing.
pub open spec fn spec_model_name(code: u8) -> Seq<char> {
    if code == 0x00 {
        "Axe-Fx Standard"@
    } else if code == 0x01 {
        "Axe-Fx Ultra"@
    } else if code == 0x03 {
        "Axe-Fx II"@
    } else if code == 0x05 {
        "FX8"@
    } else if code == 0x06 {
        "Axe-Fx II XL"@
    } else if code == 0x07 {
        "Axe-Fx II XL+"@
    } else if code == 0x08 {
        "AX8"@
    } else {
        "Unknown"@
    }
}

/// A frame decodes to a preset exactly when it is long enough to hold the
/// fixed header layout, its header validates, and its stored checksum equals
/// the computed one.
pub open spec fn spec_frame_decodes(s: Seq<u8>) -> bool {
    &&& s.len() >= 8
    &&& spec_header_valid(s)
    &&& s[s.len() - 2] == spec_checksum(s)
}

/// Checks the vendor signature bytes and the message-type code of a frame.
pub fn validate_header(buf: &[u8]) -> (r: bool)
    requires
        buf@.len() >= 6,
    ensures
        r == spec_header_valid(buf@),
{
    *slice_index_get(buf, 1) == 0x00 && *slice_index_get(buf, 2) == 0x01 && *slice_index_get(
        buf,
        3,
    ) == 0x74 && (*slice_index_get(buf, 5) == 0x77 || *slice_index_get(buf, 5) == 0x7a
        || *slice_index_get(buf, 5) == 0x04)
}

/// Returns the checksum stored in the frame and the checksum computed from
/// its bytes, in that order.
pub fn get_checksums(buf: &[u8]) -> (r: (u8, u8))
    requires
        buf@.len() >= 2,
    ensures
        r.0 == buf@[buf@.len() - 2],
        r.1 == spec_checksum(buf@),
{
    let checksum_index = buf.len() - 2;
    let file_checksum = *slice_index_get(buf, checksum_index);
    let mut xor: u8 = 0;
    let mut i: usize = 0;
    while i < checksum_index
        invariant
            i <= checksum_index,
            checksum_index == buf@.len() - 2,
            xor == xor_fold(buf@.subrange(0, i as int)),
        decreases checksum_index - i,
    {
        xor = xor ^ *slice_index_get(buf, i);
        proof {
            let longer = buf@.subrange(0, i as int + 1);
            assert(longer.drop_last() =~= buf@.subrange(0, i as int));
            assert(longer.last() == buf@[i as int]);
        }
        i = i + 1;
    }
    let calculated_checksum = xor & 0x7f;
    (file_checksum, calculated_checksum)
}

/// Maps a device model code to its display name.
pub fn axe_model_name(code: u8) -> (name: &'static str)
    ensures
        name@ == spec_model_name(code),
{
    match code {
        0x00 => "Axe-Fx Standard",
        0x01 => "Axe-Fx Ultra",
        0x03 => "Axe-Fx II",
        0x05 => "FX8",
        0x06 => "Axe-Fx II XL",
        0x07 => "Axe-Fx II XL+",
        0x08 => "AX8",
        _ => "Unknown",
    }
}

/// Decodes one SysEx frame into a preset. Returns `None` exactly when the
/// frame is too short for the fixed header layout, its vendor signature or
/// message-type code is wrong, or its stored checksum does not match the
/// computed one.
pub fn read_syx(buf: &[u8]) -> (r: Option<Preset>)
    ensures
        r is Some <==> spec_frame_decodes(buf@),
        r matches Some(p) ==> p.model@ == spec_model_name(buf@[4]) && p.target == spec_target(
            buf@,
        ),
{
    if buf.len() < 8 {
        return None;
    }
    let model = axe_model_name(*slice_index_get(buf, 4));

    if !validate_header(buf) {
        return None;
    }

    let (file_checksum, calculated_checksum) = get_checksums(buf);
    if file_checksum != calculated_checksum {
        return None;
    }

    let selector = *slice_index_get(buf, 6);
    let target: Target;
    if selector == CURRENT_EDIT_BUFFER_SELECTOR {
        target = Target::CurrentEditBuffer;
    } else {
        target = Target::BankAndPreset { bank: selector, preset: *slice_index_get(buf, 7) };
    }

    Some(Preset { model, target })
}

/// Checksum determinism: the computed checksum is a pure function of the
/// frame's bytes, so two frames holding the same bytes always yield the same
/// checksum.
pub proof fn lemma_checksum_deterministic(a: Seq<u8>, b: Seq<u8>)
    requires
        a == b,
    ensures
        spec_checksum(a) == spec_checksum(b),
{
}

/// Changing one byte of a sequence changes its XOR fold by exactly the XOR
/// difference between the old byte and the new one.
proof fn lemma_xor_fold_update(s: Seq<u8>, j: int, v: u8)
    requires
        0 <= j < s.len(),
    ensures
        xor_fold(s.update(j, v)) == xor_fold(s) ^ s[j] ^ v,
    decreases s.len(),
{
    let t = s.update(j, v);
    if j == s.len() - 1 {
        assert(t.drop_last() =~= s.drop_last());
        assert(t.last() == v);
        let x = xor_fold(s.drop_last());
        let l = s.last();
        assert(x ^ v == (x ^ l) ^ l ^ v) by (bit_vector);
    } else {
        assert(t.drop_last() =~= s.drop_last().update(j, v));
        assert(t.last() == s.last());
        lemma_xor_fold_update(s.drop_last(), j, v);
        let x = xor_fold(s.drop_last());
        let b = s[j];
        let l = s.last();
        assert(((x ^ b) ^ v) ^ l == ((x ^ l) ^ b) ^ v) by (bit_vector);
    }
}

/// Flipping any one of the low seven bits of any byte covered by the
/// checksum changes the computed checksum. (A flip of a byte's top bit is
/// erased by the 7-bit mask and goes undetected.)
pub proof fn lemma_checksum_detects_bit_flip(s: Seq<u8>, j: int, k: u8)
    requires
        s.len() >= 2,
        0 <= j < s.len() - 2,
        k < 7,
    ensures
        spec_checksum(s.update(j, s[j] ^ (1u8 << k))) != spec_checksum(s),
{
    let v = s[j] ^ (1u8 << k);
    let t = s.update(j, v);
    let body = s.subrange(0, s.len() - 2);
    assert(t.subrange(0, t.len() - 2) =~= body.update(j, v));
    lemma_xor_fold_update(body, j, v);
    let x = xor_fold(body);
    let b = s[j];
    assert(body[j] == b);
    assert((x ^ b ^ (b ^ (1u8 << k))) & 0x7f != x & 0x7f) by (bit_vector)
        requires
            k < 7,
    ;
}

/// Checksum correctness, constructive half: a frame long enough for the
/// header layout, with an otherwise valid header, whose checksum byte is set
/// to the XOR fold of all preceding bytes masked to seven bits, decodes.
pub proof fn lemma_correct_checksum_decodes(s: Seq<u8>)
    requires
        s.len() >= 8,
        spec_header_valid(s),
        s[s.len() - 2] == spec_checksum(s),
    ensures
        spec_frame_decodes(s),
{
}

/// Checksum correctness, destructive half: a frame that decodes stops
/// decoding when any one of the low seven bits of any byte before the
/// checksum byte is flipped.
pub proof fn lemma_bit_flip_rejected(s: Seq<u8>, j: int, k: u8)
    requires
        spec_frame_decodes(s),
        0 <= j < s.len() - 2,
        k < 7,
    ensures
        !spec_frame_decodes(s.update(j, s[j] ^ (1u8 << k))),
{
    lemma_checksum_detects_bit_flip(s, j, k);
    let t = s.update(j, s[j] ^ (1u8 << k));
    assert(t[t.len() - 2] == s[s.len() - 2]);
}

/// Target resolution: the current-edit-buffer selector wins regardless of
/// the preset-number byte beside it; any other selector names that bank and
/// the preset number at the next offset.
pub proof fn lemma_target_resolution(s: Seq<u8>)
    requires
        s.len() >= 8,
    ensures
        s[6] == CURRENT_EDIT_BUFFER_SELECTOR ==> spec_target(s) == Target::CurrentEditBuffer,
        s[6] != CURRENT_EDIT_BUFFER_SELECTOR ==> spec_target(s) == (Target::BankAndPreset {
            bank: s[6],
            preset: s[7],
        }),
{
}

/// Header rejection: a frame whose first vendor byte is wrong never decodes,
/// whatever the rest of it holds.
pub proof fn lemma_wrong_vendor_byte_rejected(s: Seq<u8>)
    requires
        s[1] != 0x00,
    ensures
        !spec_frame_decodes(s),
{
}

/// Model mapping totality: every model code, recognized or not, resolves to
/// a non-empty display name.
pub proof fn lemma_model_name_total(code: u8)
    ensures
        spec_model_name(code).len() > 0,
{
    reveal_strlit("Axe-Fx Standard");
    reveal_strlit("Axe-Fx Ultra");
    reveal_strlit("Axe-Fx II");
    reveal_strlit("FX8");
    reveal_strlit("Axe-Fx II XL");
    reveal_strlit("Axe-Fx II XL+");
    reveal_strlit("AX8");
    reveal_strlit("Unknown");
}

}  // verus!
