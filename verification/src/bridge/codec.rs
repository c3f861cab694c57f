//! Which codec a packet carries.

use vstd::prelude::*;

verus! {

/// Codec carried by a raw packet, which unlike the IEC 61937 transport has no
/// data type to tell TrueHD from E-AC-3.
#[derive(Clone, Copy, PartialEq, Eq, Debug, Structural)]
pub enum RawCodec {
    TrueHd,
    Eac3,
    Dts,
}

/// Dynamic range control that the host asked for.
#[derive(Clone, Copy, PartialEq, Eq, Debug, Structural)]
pub enum DrcMode {
    Off,
    Standard,
    Heavy,
}

/// What the DTS stream carries beyond its core.
#[derive(Clone, Copy, PartialEq, Eq, Debug, Structural)]
pub enum DtsProfile {
    Core,
    Hd,
    Ma,
}

/// Whether the four bytes of `data` from `at` on are `word`.
pub open spec fn word_at(data: Seq<u8>, at: int, word: Seq<u8>) -> bool {
    &&& 0 <= at
    &&& at + 4 <= data.len()
    &&& data[at] == word[0]
    &&& data[at + 1] == word[1]
    &&& data[at + 2] == word[2]
    &&& data[at + 3] == word[3]
}

/// Major sync word of TrueHD.
pub open spec fn truehd_sync() -> Seq<u8> {
    seq![0xF8u8, 0x72u8, 0x6Fu8, 0xBAu8]
}

/// Sync word of a DTS core frame.
pub open spec fn core_sync() -> Seq<u8> {
    seq![0x7Fu8, 0xFEu8, 0x80u8, 0x01u8]
}

/// Sync word of a DTS extension substream.
pub open spec fn substream_sync() -> Seq<u8> {
    seq![0x64u8, 0x58u8, 0x20u8, 0x25u8]
}

/// The codec whose sync word a raw access unit starts with, the most specific
/// pattern first.
pub open spec fn sniffed(data: Seq<u8>) -> Option<RawCodec> {
    if word_at(data, 4, truehd_sync()) {
        Some(RawCodec::TrueHd)
    } else if word_at(data, 0, core_sync()) || word_at(data, 0, substream_sync()) {
        Some(RawCodec::Dts)
    } else if data.len() >= 2 && (data[0] == 0x0B && data[1] == 0x77 || data[0] == 0x77 && data[1]
        == 0x0B) {
        Some(RawCodec::Eac3)
    } else {
        None
    }
}

/// Best-effort codec detection on a raw access unit.
pub fn sniff_raw_codec(data: &[u8]) -> (codec: Option<RawCodec>)
    ensures
        codec == sniffed(data@),
{
    if data.len() >= 8 && data[4] == 0xF8 && data[5] == 0x72 && data[6] == 0x6F && data[7] == 0xBA {
        return Some(RawCodec::TrueHd);
    }
    if data.len() >= 4 {
        if data[0] == 0x7F && data[1] == 0xFE && data[2] == 0x80 && data[3] == 0x01 {
            return Some(RawCodec::Dts);
        }
        if data[0] == 0x64 && data[1] == 0x58 && data[2] == 0x20 && data[3] == 0x25 {
            return Some(RawCodec::Dts);
        }
    }
    if data.len() >= 2 && ((data[0] == 0x0B && data[1] == 0x77) || (data[0] == 0x77 && data[1]
        == 0x0B)) {
        return Some(RawCodec::Eac3);
    }
    None
}

} // verus!
