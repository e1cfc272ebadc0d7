//! The metadata that opens a connection to the device server: the device
//! name and the video session's codec and size.

use vstd::prelude::*;
use vstd::utf8::{decode_utf8, valid_utf8};
use crate::scrcpy::media::{VideoCodec, be32, codec_of_id, read_be32};
use crate::text::{chars_of, hex_nat, string_of_range, u64_to_hex, utf8_decode};

verus! {

/// Whether the session flags word announces the newer metadata layout, in
/// which the width follows the flags and the height comes in four more bytes.
pub open spec fn has_height_word(buf: Seq<u8>) -> bool {
    be32(buf, 4) >= 0x8000_0000
}

/// The codec, width and height that the video metadata announce, or the
/// error for metadata that cannot be read.
pub open spec fn metadata_model(buf: Seq<u8>, height: Option<Seq<u8>>) -> Result<(VideoCodec, u32, u32), Seq<char>> {
    let id = be32(buf, 0) as u32;
    if has_height_word(buf) && height is None {
        Err("Missing height buffer for v3.0+ SessionMeta format"@)
    } else {
        let w = if has_height_word(buf) { be32(buf, 8) } else { be32(buf, 4) };
        let h = if has_height_word(buf) { be32(height.unwrap(), 0) } else { be32(buf, 8) };
        match codec_of_id(id) {
            Some(c) => Ok((c, w as u32, h as u32)),
            None => Err("Unknown video codec ID: 0x"@ + hex_nat(id as nat)),
        }
    }
}

/// Whether four more bytes with the height must be read after the twelve
/// bytes of video metadata.
pub fn metadata_needs_height(buf: &[u8; 12]) -> (b: bool)
    ensures
        b == has_height_word(buf@),
{
    read_be32(buf.as_slice(), 4) >= 0x8000_0000
}

/// Decodes the video metadata: codec id, then width and height, or (in the
/// newer layout) flags and width, with the height in `height_buf`.
pub fn parse_video_metadata_buf(buf: &[u8; 12], height_buf: Option<&[u8; 4]>) -> (r: Result<(VideoCodec, u32, u32), String>)
    ensures
        match (r, metadata_model(buf@, match height_buf { Some(h) => Some(h@), None => None })) {
            (Ok(x), Ok(y)) => x == y,
            (Err(m), Err(n)) => m@ == n,
            _ => false,
        },
{
    let raw_codec_id = read_be32(buf.as_slice(), 0);
    let val2 = read_be32(buf.as_slice(), 4);
    let val3 = read_be32(buf.as_slice(), 8);
    let (width, height) = if val2 >= 0x8000_0000 {
        match height_buf {
            Some(h) => (val3, read_be32(h.as_slice(), 0)),
            None => return Err(String::from_str("Missing height buffer for v3.0+ SessionMeta format")),
        }
    } else {
        (val2, val3)
    };
    match VideoCodec::from_id(raw_codec_id) {
        Some(c) => Ok((c, width, height)),
        None => {
            let mut m = String::from_str("Unknown video codec ID: 0x");
            m.append(u64_to_hex(raw_codec_id as u64).as_str());
            Err(m)
        },
    }
}

/// `s` without its trailing NUL characters.
pub open spec fn trim_nul(s: Seq<char>) -> Seq<char>
    decreases s.len(),
{
    if s.len() > 0 && s.last() == '\0' {
        trim_nul(s.drop_last())
    } else {
        s
    }
}

/// The device name in `buf`: its UTF-8 text without trailing NUL
/// characters, or `INVALID_NAME` for bytes that are not UTF-8.
pub open spec fn device_name_model(buf: Seq<u8>) -> Seq<char> {
    if valid_utf8(buf) {
        trim_nul(decode_utf8(buf))
    } else {
        "INVALID_NAME"@
    }
}

/// Decodes the device name that the server sends first.
pub fn parse_device_name(buf: &[u8]) -> (name: String)
    ensures
        name@ == device_name_model(buf@),
{
    match utf8_decode(buf) {
        Some(text) => {
            let cs = chars_of(text);
            let mut end = cs.len();
            assert(cs@.take(end as int) =~= cs@);
            while end > 0 && cs[end - 1] == '\0'
                invariant
                    end <= cs@.len(),
                    trim_nul(cs@) == trim_nul(cs@.take(end as int)),
                decreases end,
            {
                assert(cs@.take(end as int).drop_last() =~= cs@.take(end - 1));
                end = end - 1;
            }
            assert(cs@.take(cs@.len() as int) =~= cs@);
            let r = string_of_range(cs.as_slice(), 0, end);
            assert(r@ =~= cs@.take(end as int));
            r
        },
        None => String::from_str("INVALID_NAME"),
    }
}

} // verus!
