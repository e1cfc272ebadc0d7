//! Video codecs, the header of a media packet, and the merging of codec
//! configuration into the packet that follows it.

use vstd::prelude::*;

verus! {

/// The codec id that the device server sends for H.264 (`"h264"`).
pub const SC_CODEC_ID_H264: u32 = 0x6832_3634;
/// The codec id that the device server sends for H.265 (`"h265"`).
pub const SC_CODEC_ID_H265: u32 = 0x6832_3635;
/// The codec id that the device server sends for AV1 (`"\0av1"`).
pub const SC_CODEC_ID_AV1: u32 = 0x0061_7631;

/// A video codec.
#[derive(Debug, Clone, Copy, PartialEq, Eq, Structural)]
pub enum VideoCodec {
    H264,
    H265,
    AV1,
}

/// The codec that the server means by `id`.
pub open spec fn codec_of_id(id: u32) -> Option<VideoCodec> {
    if id == SC_CODEC_ID_H264 {
        Some(VideoCodec::H264)
    } else if id == SC_CODEC_ID_H265 {
        Some(VideoCodec::H265)
    } else if id == SC_CODEC_ID_AV1 {
        Some(VideoCodec::AV1)
    } else {
        None
    }
}

/// The name of a codec as the server's options spell it.
pub open spec fn codec_name(c: VideoCodec) -> Seq<char> {
    match c {
        VideoCodec::H264 => "h264"@,
        VideoCodec::H265 => "h265"@,
        VideoCodec::AV1 => "av1"@,
    }
}

impl VideoCodec {
    /// The codec that the server means by `id`.
    pub fn from_id(id: u32) -> (r: Option<VideoCodec>)
        ensures
            r == codec_of_id(id),
    {
        if id == SC_CODEC_ID_H264 {
            Some(VideoCodec::H264)
        } else if id == SC_CODEC_ID_H265 {
            Some(VideoCodec::H265)
        } else if id == SC_CODEC_ID_AV1 {
            Some(VideoCodec::AV1)
        } else {
            None
        }
    }

    /// The name of the codec (`h264`, `h265`, `av1`), as displayed.
    pub fn name(&self) -> (s: String)
        ensures
            s@ == codec_name(*self),
    {
        match self {
            VideoCodec::H264 => String::from_str("h264"),
            VideoCodec::H265 => String::from_str("h265"),
            VideoCodec::AV1 => String::from_str("av1"),
        }
    }

    /// H.264 and H.265 send their configuration in a packet of its own,
    /// which must be prepended to the next media packet.
    pub fn must_merge_config(&self) -> (b: bool)
        ensures
            b == (*self == VideoCodec::H264 || *self == VideoCodec::H265),
    {
        match self {
            VideoCodec::H264 | VideoCodec::H265 => true,
            VideoCodec::AV1 => false,
        }
    }
}

/// The big-endian value of the four bytes of `s` from `i`.
pub open spec fn be32(s: Seq<u8>, i: int) -> int {
    s[i] * 0x100_0000 + s[i + 1] * 0x1_0000 + s[i + 2] * 0x100 + s[i + 3]
}

/// The big-endian value of the eight bytes of `s` from `i`.
pub open spec fn be64(s: Seq<u8>, i: int) -> int {
    be32(s, i) * 0x1_0000_0000 + be32(s, i + 4)
}

/// Reads a big-endian `u32` at `i`.
pub fn read_be32(s: &[u8], i: usize) -> (v: u32)
    requires
        i + 4 <= s@.len(),
    ensures
        v == be32(s@, i as int),
{
    (s[i] as u32) * 0x100_0000 + (s[i + 1] as u32) * 0x1_0000 + (s[i + 2] as u32) * 0x100 + (s[i + 3] as u32)
}

/// Reads a big-endian `u64` at `i`.
pub fn read_be64(s: &[u8], i: usize) -> (v: u64)
    requires
        i + 8 <= s@.len(),
    ensures
        v == be64(s@, i as int),
{
    let n = s.len();
    assert(i + 8 <= n);
    (read_be32(s, i) as u64) * 0x1_0000_0000 + (read_be32(s, i + 4) as u64)
}

/// The header of a media packet: presentation time (none for a codec
/// configuration packet), key-frame flag and payload length.
#[derive(Debug, Clone, Copy)]
pub struct PacketHeader {
    pub pts: Option<i64>,
    pub key_frame: bool,
    pub len: u32,
}

/// Bit 62 of the first word marks a configuration packet, bit 61 a key
/// frame, and the 61 bits below hold the presentation time.
pub open spec fn header_model(h: Seq<u8>) -> PacketHeader {
    let flags = be64(h, 0);
    PacketHeader {
        pts: if (flags / 0x4000_0000_0000_0000) % 2 == 1 { None } else { Some((flags % 0x2000_0000_0000_0000) as i64) },
        key_frame: (flags / 0x2000_0000_0000_0000) % 2 == 1,
        len: be32(h, 8) as u32,
    }
}

/// Decodes the twelve header bytes of a media packet.
pub fn parse_packet_header(h: &[u8; 12]) -> (r: PacketHeader)
    ensures
        r == header_model(h@),
{
    let flags = read_be64(h.as_slice(), 0);
    let len = read_be32(h.as_slice(), 8);
    let config = flags & 0x4000_0000_0000_0000u64 != 0;
    let key = flags & 0x2000_0000_0000_0000u64 != 0;
    let pts = flags & 0x1fff_ffff_ffff_ffffu64;
    assert((flags & 0x4000_0000_0000_0000u64 != 0) == ((flags / 0x4000_0000_0000_0000u64) % 2 == 1)) by (bit_vector);
    assert((flags & 0x2000_0000_0000_0000u64 != 0) == ((flags / 0x2000_0000_0000_0000u64) % 2 == 1)) by (bit_vector);
    assert((flags & 0x1fff_ffff_ffff_ffffu64) == flags % 0x2000_0000_0000_0000u64) by (bit_vector);
    PacketHeader {
        pts: if config { None } else { Some(pts as i64) },
        key_frame: key,
        len,
    }
}

/// A media packet: payload and presentation time (none for configuration).
#[derive(Debug)]
pub struct MediaPacket {
    pub data: Vec<u8>,
    pub pts: Option<i64>,
}

/// Keeps the last codec configuration until the media packet that needs it.
#[derive(Debug)]
pub struct PacketMerger {
    pub config: Option<Vec<u8>>,
}

/// What merging does: a configuration packet is remembered (and passes
/// unchanged); the next media packet gets a non-empty remembered
/// configuration prepended, and the configuration is dropped.
pub open spec fn merge_model(config: Option<Seq<u8>>, pts: Option<i64>, data: Seq<u8>) -> (Option<Seq<u8>>, Seq<u8>) {
    if pts is None {
        (Some(data), data)
    } else {
        match config {
            Some(c) => (None, if c.len() > 0 { c + data } else { data }),
            None => (None, data),
        }
    }
}

/// The configuration that a merger holds.
pub open spec fn merger_view(m: PacketMerger) -> Option<Seq<u8>> {
    match m.config {
        Some(c) => Some(c@),
        None => None,
    }
}

fn copy_bytes(s: &Vec<u8>) -> (r: Vec<u8>)
    ensures
        r@ == s@,
{
    let mut r: Vec<u8> = Vec::new();
    let mut i: usize = 0;
    while i < s.len()
        invariant
            i <= s@.len(),
            r@ == s@.take(i as int),
        decreases s@.len() - i,
    {
        r.push(s[i]);
        i = i + 1;
        assert(r@ =~= s@.take(i as int));
    }
    assert(s@.take(s@.len() as int) =~= s@);
    r
}

impl PacketMerger {
    /// A merger that holds no configuration.
    pub fn new() -> (m: PacketMerger)
        ensures
            merger_view(m) is None,
    {
        PacketMerger { config: None }
    }

    /// Merges the held configuration into `packet`, or remembers `packet`
    /// when it is a configuration packet.
    pub fn merge(&mut self, packet: &mut MediaPacket)
        ensures
            (merger_view(*final(self)), final(packet).data@) == merge_model(merger_view(*old(self)), old(packet).pts, old(packet).data@),
            final(packet).pts == old(packet).pts,
    {
        if packet.pts.is_none() {
            self.config = Some(copy_bytes(&packet.data));
            return;
        }
        match self.config.take() {
            Some(c) => {
                if c.len() > 0 {
                    let mut merged = copy_bytes(&c);
                    let ghost cv = c@;
                    let ghost dv = packet.data@;
                    merged.append(&mut packet.data);
                    assert(merged@ =~= cv + dv);
                    packet.data = merged;
                }
            },
            None => {},
        }
    }
}

/// A configuration packet followed by a media packet: the media packet comes
/// out with the configuration in front (when there is any), and the merger
/// is left empty, so the packet after it passes unchanged.
pub proof fn law_config_then_media(start: Option<Seq<u8>>, config: Seq<u8>, pts: i64, media: Seq<u8>, next_pts: i64, next: Seq<u8>)
    ensures
        ({
            let (m1, out1) = merge_model(start, None, config);
            let (m2, out2) = merge_model(m1, Some(pts), media);
            let (m3, out3) = merge_model(m2, Some(next_pts), next);
            &&& out1 == config
            &&& out2 == (if config.len() > 0 { config + media } else { media })
            &&& m2 is None
            &&& out3 == next
            &&& m3 is None
        }),
{
}

/// Byte `x` of row `y` in an image laid out with `step` bytes per row.
pub open spec fn pixel_byte(img: Seq<u8>, step: int, y: int, x: int) -> u8 {
    img[y * step + x]
}

/// The layout of a decoded frame can be read: with rows packed it holds
/// exactly the frame, else every row lies inside it.
pub open spec fn frame_readable(len: nat, stride: nat, row_bytes: nat, height: nat) -> bool {
    &&& stride == row_bytes ==> len == height * row_bytes
    &&& stride != row_bytes ==> height == 0 || (height - 1) * stride + row_bytes <= len
}

/// Copies a decoded frame into a packed buffer of `height` rows of
/// `row_bytes` bytes, leaving out the padding at the end of each source row
/// (row `y` starts at `y * stride` in `src`).
pub fn strip_row_padding(src: &[u8], stride: usize, row_bytes: usize, height: usize) -> (dst: Vec<u8>)
    requires
        frame_readable(src@.len(), stride as nat, row_bytes as nat, height as nat),
        height * row_bytes <= usize::MAX,
    ensures
        dst@.len() == height * row_bytes,
        forall|y: int, x: int| 0 <= y < height && 0 <= x < row_bytes
            ==> #[trigger] pixel_byte(dst@, row_bytes as int, y, x) == pixel_byte(src@, stride as int, y, x),
{
    let n = src.len();
    let mut dst: Vec<u8> = Vec::new();
    let mut y: usize = 0;
    let mut off: usize = 0;
    proof {
        if height > 0 {
            if stride == row_bytes {
                assert(height * row_bytes >= row_bytes) by (nonlinear_arith)
                    requires height >= 1;
            } else {
                assert((height - 1) * stride >= 0) by (nonlinear_arith)
                    requires height >= 1;
            }
        }
    }
    while y < height
        invariant
            n == src@.len(),
            frame_readable(src@.len(), stride as nat, row_bytes as nat, height as nat),
            height * row_bytes <= usize::MAX,
            y <= height,
            dst@.len() == y * row_bytes,
            y < height ==> off == y * stride && off + row_bytes <= src@.len(),
            forall|yy: int, x: int| 0 <= yy < y && 0 <= x < row_bytes
                ==> #[trigger] pixel_byte(dst@, row_bytes as int, yy, x) == pixel_byte(src@, stride as int, yy, x),
        decreases height - y,
    {
        let ghost before = dst@;
        let mut x: usize = 0;
        while x < row_bytes
            invariant
                n == src@.len(),
                y < height,
                off == y * stride,
                off + row_bytes <= src@.len(),
                x <= row_bytes,
                dst@.len() == y * row_bytes + x,
                dst@.subrange(0, (y * row_bytes) as int) == before.subrange(0, (y * row_bytes) as int),
                before.len() == y * row_bytes,
                forall|k: int| 0 <= k < x
                    ==> #[trigger] pixel_byte(dst@, row_bytes as int, y as int, k) == pixel_byte(src@, stride as int, y as int, k),
            decreases row_bytes - x,
        {
            let ghost prev = dst@;
            dst.push(src[off + x]);
            proof {
                assert forall|k: int| 0 <= k < x + 1 implies #[trigger] pixel_byte(dst@, row_bytes as int, y as int, k)
                    == pixel_byte(src@, stride as int, y as int, k) by {
                    if k < x {
                        assert(pixel_byte(prev, row_bytes as int, y as int, k) == pixel_byte(src@, stride as int, y as int, k));
                        assert(dst@[y * row_bytes + k] == prev[y * row_bytes + k]);
                    }
                }
                assert(dst@.subrange(0, (y * row_bytes) as int) =~= prev.subrange(0, (y * row_bytes) as int));
            }
            x = x + 1;
        }
        proof {
            assert forall|yy: int, xx: int| 0 <= yy < y + 1 && 0 <= xx < row_bytes
                implies #[trigger] pixel_byte(dst@, row_bytes as int, yy, xx) == pixel_byte(src@, stride as int, yy, xx) by {
                if yy < y {
                    assert(yy * row_bytes + xx < y * row_bytes) by (nonlinear_arith)
                        requires 0 <= yy < y, 0 <= xx < row_bytes;
                    assert(dst@[yy * row_bytes + xx] == dst@.subrange(0, (y * row_bytes) as int)[yy * row_bytes + xx]);
                    assert(before[yy * row_bytes + xx] == before.subrange(0, (y * row_bytes) as int)[yy * row_bytes + xx]);
                    assert(pixel_byte(before, row_bytes as int, yy, xx) == pixel_byte(src@, stride as int, yy, xx));
                }
            }
            assert((y + 1) * row_bytes == y * row_bytes + row_bytes) by (nonlinear_arith);
        }
        y = y + 1;
        if y < height {
            proof {
                assert((y - 1) * stride + stride == y * stride) by (nonlinear_arith);
                if stride == row_bytes {
                    assert(y * stride + row_bytes <= height * row_bytes) by (nonlinear_arith)
                        requires y < height, stride == row_bytes;
                } else {
                    assert(y * stride <= (height - 1) * stride) by (nonlinear_arith)
                        requires y <= height - 1;
                }
            }
            off = off + stride;
        }
    }
    dst
}

} // verus!
