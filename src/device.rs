use vstd::prelude::*;

use crate::cursor::{u16_at, u16s_at, Cursor};
use crate::context::Standalone;
use crate::decode::Decode;
use crate::error::DecodeError;

verus! {

/// A device table: per-size hinting deltas, or, for a delta format outside
/// one to three, a variation index whose two indices stand in the size
/// fields.
#[derive(Clone, Debug)]
pub struct Device {
    pub start_size: u16,
    pub end_size: u16,
    pub delta_format: u16,
    pub delta_values: Vec<u16>,
}

/// The number of bits each delta takes in `format`, or zero where the format
/// packs no deltas.
pub open spec fn delta_bits(format: u16) -> int {
    if format == 1 {
        2
    } else if format == 2 {
        4
    } else if format == 3 {
        8
    } else {
        0
    }
}

/// The number of 16-bit words that hold the packed deltas.
pub open spec fn delta_words(start: u16, end: u16, format: u16) -> int {
    if start <= end {
        ((end - start + 1) * delta_bits(format) + 15) / 16
    } else {
        0
    }
}

impl Decode for Device {
    type Parameter = Standalone;

    open spec fn failure(d: Seq<u8>, p: int, param: Standalone) -> Option<DecodeError> {
        if p + 6 > d.len() {
            Some(DecodeError::Truncated)
        } else if p + 6 + 2 * delta_words(u16_at(d, p), u16_at(d, p + 2), u16_at(d, p + 4))
            > d.len() {
            Some(DecodeError::Truncated)
        } else {
            None
        }
    }

    open spec fn decodes(d: Seq<u8>, p: int, param: Standalone, value: Device) -> bool {
        &&& value.start_size == u16_at(d, p)
        &&& value.end_size == u16_at(d, p + 2)
        &&& value.delta_format == u16_at(d, p + 4)
        &&& value.delta_values@ == u16s_at(
            d,
            p + 6,
            delta_words(value.start_size, value.end_size, value.delta_format),
        )
    }

    open spec fn end(d: Seq<u8>, p: int, param: Standalone) -> int {
        p + 6 + 2 * delta_words(u16_at(d, p), u16_at(d, p + 2), u16_at(d, p + 4))
    }

    fn read(c: &mut Cursor, param: Standalone) -> (r: Result<Device, DecodeError>) {
        let start_size = c.read_u16()?;
        let end_size = c.read_u16()?;
        let delta_format = c.read_u16()?;
        let bits: u32 = if delta_format == 1 {
            2
        } else if delta_format == 2 {
            4
        } else if delta_format == 3 {
            8
        } else {
            0
        };
        let words: u16 = if start_size <= end_size {
            ((((end_size - start_size) as u32 + 1) * bits + 15) / 16) as u16
        } else {
            0
        };
        assert(words == delta_words(start_size, end_size, delta_format)) by (nonlinear_arith)
            requires
                bits == delta_bits(delta_format),
                start_size <= end_size ==> words == (((end_size - start_size) as u32 + 1) * bits
                    + 15) / 16,
                start_size > end_size ==> words == 0,
        ;
        let delta_values = c.read_u16s(words)?;
        Ok(Device { start_size, end_size, delta_format, delta_values })
    }
}

} // verus!
