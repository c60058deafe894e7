//! Decoding WebSocket data frames (RFC 6455, 5.2).
use vstd::prelude::*;

use crate::encoding::{be_value, lemma_be_value_bound, lemma_pow256_mono, pow256, read_be};

verus! {

/// The Websocket Dataframe.
#[derive(Debug, PartialEq)]
pub struct DataFrame {
    /// Whether this is the final fragment.
    pub fin: bool,
    /// The first reserved bit.
    pub rsv_1: bool,
    /// The second reserved bit.
    pub rsv_2: bool,
    /// The third reserved bit.
    pub rsv_3: bool,
    /// The opcode (low four bits of the first byte).
    pub opcode: u8,
    /// Whether the payload is masked.
    pub mask: bool,
    /// The length of the payload.
    pub payload_len: u64,
    /// The masking key, present when `mask` is set.
    pub masking_key: Option<u32>,
    /// The payload, as received.
    pub payload: Vec<u8>,
}

/// How far decoding a frame from the bytes received so far got.
#[derive(Debug, PartialEq)]
pub enum FrameProgress {
    /// At least this many bytes in total are needed before the frame (or
    /// the next part of its header) can be read.
    NeedBytes(usize),
    /// A whole frame was read; it took this many bytes.
    Complete(DataFrame, usize),
}

/// The seven length bits of the second header byte.
pub open spec fn initial_size(second: u8) -> u8 {
    second & 0x7f
}

/// Whether the mask bit of the second header byte is set.
pub open spec fn mask_bit(second: u8) -> bool {
    (second & 0x80) > 0
}

/// The number of extended payload length bytes that follow the second
/// header byte.
pub open spec fn extended_len_size(initial: u8) -> int {
    if initial == 126 {
        2
    } else if initial == 127 {
        8
    } else {
        0
    }
}

/// The length of the frame header whose first two bytes start `data`.
pub open spec fn header_len(data: Seq<u8>) -> int {
    2 + extended_len_size(initial_size(data[1])) + if mask_bit(data[1]) {
        4int
    } else {
        0int
    }
}

/// The payload length announced by the header at the start of `data`.
pub open spec fn announced_len(data: Seq<u8>) -> nat {
    let initial = initial_size(data[1]);
    if initial == 126 {
        be_value(data.subrange(2, 4))
    } else if initial == 127 {
        be_value(data.subrange(2, 10))
    } else {
        initial as nat
    }
}

/// The total length of the frame at the start of `data`.
pub open spec fn frame_len(data: Seq<u8>) -> int {
    header_len(data) + announced_len(data)
}

/// Whether the frame at the start of `data` fits in memory: its length, once
/// its header is known, is at most `usize::MAX`.
pub open spec fn frame_fits(data: Seq<u8>) -> bool {
    data.len() >= 2 && data.len() >= header_len(data) ==> frame_len(data) <= usize::MAX
}

/// The frame described by the header and payload at the start of `data`.
pub open spec fn frame_fields_match(f: DataFrame, data: Seq<u8>) -> bool {
    let h = header_len(data);
    &&& f.fin == ((data[0] & 0x80) > 0)
    &&& f.rsv_1 == ((data[0] & 0x40) > 0)
    &&& f.rsv_2 == ((data[0] & 0x20) > 0)
    &&& f.rsv_3 == ((data[0] & 0x10) > 0)
    &&& f.opcode == (data[0] & 0x0f)
    &&& f.mask == mask_bit(data[1])
    &&& f.payload_len == announced_len(data)
    &&& f.masking_key == if mask_bit(data[1]) {
        Some(
            be_value(
                data.subrange(h - 4, h),
            ) as u32,
        )
    } else {
        None::<u32>
    }
    &&& f.payload@ == data.subrange(h, frame_len(data))
}

impl DataFrame {
    /// Checks whether the frame at the start of `data` fits in memory, which
    /// `decode` needs.
    pub fn fits(data: &[u8]) -> (res: bool)
        ensures
            res == frame_fits(data@),
    {
        if data.len() < 2 {
            return true;
        }
        let second = data[1];
        let mask = (second & 0x80) > 0;
        let initial = second & 0x7f;
        let ext: usize = if initial == 126 {
            2
        } else if initial == 127 {
            8
        } else {
            0
        };
        let head: usize = 2 + ext + if mask {
            4
        } else {
            0
        };
        assert(head == header_len(data@));
        if data.len() < head {
            return true;
        }
        let payload_len: u64 = if ext == 0 {
            initial as u64
        } else {
            read_be(data, 2, ext)
        };
        assert(payload_len == announced_len(data@));
        (payload_len as u128) + (head as u128) <= (usize::MAX as u128)
    }

    /// Decodes the frame at the start of `data`, or says how many bytes are
    /// needed before it (or the next part of its header) can be read.
    pub fn decode(data: &[u8]) -> (res: FrameProgress)
        requires
            frame_fits(data@),
        ensures
            data@.len() < 2 ==> res == FrameProgress::NeedBytes(2),
            data@.len() >= 2 && data@.len() < header_len(data@) ==> res
                == FrameProgress::NeedBytes(header_len(data@) as usize),
            data@.len() >= 2 && data@.len() >= header_len(data@) && data@.len() < frame_len(data@)
                ==> res == FrameProgress::NeedBytes(frame_len(data@) as usize),
            data@.len() >= 2 && data@.len() >= frame_len(data@) ==> (res matches FrameProgress::Complete(
                f,
                n,
            ) && n == frame_len(data@) && frame_fields_match(f, data@)),
    {
        if data.len() < 2 {
            return FrameProgress::NeedBytes(2);
        }
        let first = data[0];
        let second = data[1];
        let mask = (second & 0x80) > 0;
        let initial = second & 0x7f;
        let ext: usize = if initial == 126 {
            2
        } else if initial == 127 {
            8
        } else {
            0
        };
        let head: usize = 2 + ext + if mask {
            4
        } else {
            0
        };
        assert(head == header_len(data@));
        if data.len() < head {
            return FrameProgress::NeedBytes(head);
        }
        let payload_len: u64 = if ext == 0 {
            initial as u64
        } else {
            read_be(data, 2, ext)
        };
        assert(payload_len == announced_len(data@));
        let total: usize = head + payload_len as usize;
        if data.len() < total {
            return FrameProgress::NeedBytes(total);
        }
        let masking_key = if mask {
            let k = read_be(data, head - 4, 4);
            proof {
                lemma_be_value_bound(data@.subrange(head - 4, head as int));
                assert(pow256(4) == 4294967296) by {
                    reveal_with_fuel(pow256, 5);
                }
            }
            Some(k as u32)
        } else {
            None
        };
        let payload = vstd::slice::slice_to_vec(vstd::slice::slice_subrange(data, head, total));
        let frame = DataFrame {
            fin: (first & 0x80) > 0,
            rsv_1: (first & 0x40) > 0,
            rsv_2: (first & 0x20) > 0,
            rsv_3: (first & 0x10) > 0,
            opcode: first & 0x0f,
            mask,
            payload_len,
            masking_key,
            payload,
        };
        FrameProgress::Complete(frame, total)
    }
}

} // verus!
