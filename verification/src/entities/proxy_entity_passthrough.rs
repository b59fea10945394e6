//! PROXY ENTITY (graphical), passed through: the opaque body of a
//! custom entity class whose application is not present.
//!
//! ```text
//! BL    proxy_class_id
//! BL    application_version
//! BL    data_size_bits        -- payload bit-length
//! RC × ceil(data_size_bits / 8)
//! (R2007+, when a byte is left)
//!   H   original_object_data_handle
//! ```
use vstd::prelude::*;

use crate::bitcursor::{spec_read_bl, spec_read_handle, BitCursor, Handle};
use crate::entities::{read_rc_vec, spec_read_rc_seq, spec_rejected};
use crate::error::{Error, Result};
use crate::header::concat_text;
use crate::text::{push_signed_decimal, spec_decimal_digits, spec_signed_decimal, with_decimal};
use crate::version::Version;

verus! {

/// Cap on the embedded proxy payload (16 MiB).
pub const MAX_PROXY_DATA_BYTES: usize = 16777216;

/// Decoded proxy entity.
#[derive(Debug, Clone, PartialEq, Eq)]
pub struct ProxyEntityPassthrough {
    pub proxy_class_id: u32,
    pub application_version: u32,
    /// On-disk bit-length of the raw payload.
    pub data_size_bits: u32,
    /// Raw bytes as they appear on the stream (byte-padded).
    pub raw_proxy_data: Vec<u8>,
    /// Optional owner handle, R2007+ only.
    pub original_object_handle: Option<Handle>,
}

/// The fields up to and including the payload, and the bit after it;
/// a negative size, one over the cap, or one past the end of the
/// buffer is refused.
pub open spec fn spec_decode_body(b: Seq<u8>, p: int) -> core::result::Result<((u32, u32, u32, Seq<u8>), int), Error> {
    match spec_read_bl(b, p) {
        Err(e) => Err(e),
        Ok((class_id, p1)) => match spec_read_bl(b, p1) {
            Err(e) => Err(e),
            Ok((app, p2)) => match spec_read_bl(b, p2) {
                Err(e) => Err(e),
                Ok((bits, p3)) => {
                    let nbytes = (bits + 7) / 8;
                    if bits < 0 || nbytes > MAX_PROXY_DATA_BYTES || nbytes * 8 > b.len() * 8 - p3 {
                        Err(spec_rejected())
                    } else {
                        match spec_read_rc_seq(b, p3, nbytes as nat) {
                            Err(e) => Err(e),
                            Ok((data, p4)) => Ok(
                                ((class_id as u32, app as u32, bits as u32, data), p4),
                            ),
                        }
                    }
                },
            },
        },
    }
}

/// The message of the refusal of the payload size, when the record is
/// refused for it: it names the size, and the cap or the bits left
/// that it exceeds.
pub open spec fn spec_refusal_text(b: Seq<u8>, p: int) -> Option<Seq<char>> {
    match spec_read_bl(b, p) {
        Err(_) => None,
        Ok((_, p1)) => match spec_read_bl(b, p1) {
            Err(_) => None,
            Ok((_, p2)) => match spec_read_bl(b, p2) {
                Err(_) => None,
                Ok((bits, p3)) => {
                    let nbytes = (bits + 7) / 8;
                    if bits < 0 {
                        Some("PROXY entity negative data_size_bits "@ + spec_signed_decimal(bits as int))
                    } else if nbytes > MAX_PROXY_DATA_BYTES {
                        Some(
                            "PROXY entity data size "@ + spec_decimal_digits(nbytes as nat)
                                + " bytes exceeds cap "@ + spec_decimal_digits(MAX_PROXY_DATA_BYTES as nat),
                        )
                    } else if nbytes * 8 > b.len() * 8 - p3 {
                        Some(
                            "PROXY entity data_size_bits "@ + spec_decimal_digits(bits as nat)
                                + " exceeds remaining_bits "@ + spec_decimal_digits((b.len() * 8 - p3) as nat),
                        )
                    } else {
                        None
                    }
                },
            },
        },
    }
}

/// Decode a graphical proxy entity. From R2007, when at least a byte
/// is left after the payload, an owner handle is tried: one that reads
/// is kept, one that fails leaves `None` (and the cursor wherever the
/// failed read stopped).
pub fn decode(c: &mut BitCursor<'_>, version: Version) -> (r: Result<ProxyEntityPassthrough>)
    requires
        old(c).wf(),
    ensures
        final(c).wf(),
        final(c).data() == old(c).data(),
        match spec_decode_body(old(c).data(), old(c).pos()) {
            Err(Error::SectionMap(_)) => r matches Err(Error::SectionMap(_)),
            Err(e) => r matches Err(x) && x == e,
            Ok(((class_id, app, bits, data), p)) => r matches Ok(x) && x.proxy_class_id == class_id
                && x.application_version == app && x.data_size_bits == bits && x.raw_proxy_data@
                == data && if version.spec_is_r2007_plus() && old(c).data().len() * 8 - p >= 8 {
                match spec_read_handle(old(c).data(), p) {
                    Ok((h, p2)) => x.original_object_handle == Some(h) && final(c).pos() == p2,
                    Err(_) => x.original_object_handle is None,
                }
            } else {
                x.original_object_handle is None && final(c).pos() == p
            },
        },
        spec_refusal_text(old(c).data(), old(c).pos()) matches Some(t) ==> (r matches Err(
            Error::SectionMap(m),
        ) && m@ == t),
{
    let proxy_class_id = c.read_bl()?;
    let application_version = c.read_bl()?;
    let data_size_bits_signed = c.read_bl()?;
    if data_size_bits_signed < 0 {
        let mut m = "PROXY entity negative data_size_bits ".to_string();
        push_signed_decimal(&mut m, data_size_bits_signed as i64);
        return Err(Error::SectionMap(m));
    }
    let data_size_bits = data_size_bits_signed as u32;
    let data_size_bytes = (data_size_bits as usize + 7) / 8;
    if data_size_bytes > MAX_PROXY_DATA_BYTES {
        let head = with_decimal("PROXY entity data size ", data_size_bytes as u64);
        let tail = with_decimal(" bytes exceeds cap ", MAX_PROXY_DATA_BYTES as u64);
        return Err(Error::SectionMap(concat_text(head.as_str(), tail.as_str())));
    }
    let remaining = c.remaining_bits();
    if data_size_bytes * 8 > remaining {
        let head = with_decimal("PROXY entity data_size_bits ", data_size_bits as u64);
        let tail = with_decimal(" exceeds remaining_bits ", remaining as u64);
        return Err(Error::SectionMap(concat_text(head.as_str(), tail.as_str())));
    }
    let raw_proxy_data = read_rc_vec(c, data_size_bytes)?;
    let original_object_handle = if version.is_r2007_plus() && c.remaining_bits() >= 8 {
        match c.read_handle() {
            Ok(h) => Some(h),
            Err(_) => None,
        }
    } else {
        None
    };
    Ok(ProxyEntityPassthrough {
        proxy_class_id: proxy_class_id as u32,
        application_version: application_version as u32,
        data_size_bits,
        raw_proxy_data,
        original_object_handle,
    })
}

} // verus!
