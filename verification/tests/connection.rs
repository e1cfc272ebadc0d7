use scrcpy_mask::scrcpy::connection::{metadata_needs_height, parse_device_name, parse_video_metadata_buf};
use scrcpy_mask::scrcpy::media::{VideoCodec, SC_CODEC_ID_AV1, SC_CODEC_ID_H264, SC_CODEC_ID_H265};

#[test]
fn test_parse_device_name() {
    // Normal string
    assert_eq!(parse_device_name(b"MyDevice"), "MyDevice");

    // String with null bytes
    assert_eq!(parse_device_name(b"MyDevice\0\0\0"), "MyDevice");

    // String with null bytes in middle (will parse everything up to trailing nulls, char::from(0))
    assert_eq!(parse_device_name(b"My\0Device\0"), "My\0Device");

    // Invalid UTF-8
    assert_eq!(parse_device_name(&[0, 159, 146, 150]), "INVALID_NAME");
}

#[test]
fn test_parse_video_metadata_buf() {
    // 1. Test Old format (12 bytes)
    // Codec H264 (0x68323634), width 1920 (0x00000780), height 1080 (0x00000438)
    let mut buf_h264_old = [0u8; 12];
    buf_h264_old[0..4].copy_from_slice(&SC_CODEC_ID_H264.to_be_bytes());
    buf_h264_old[4..8].copy_from_slice(&1920u32.to_be_bytes());
    buf_h264_old[8..12].copy_from_slice(&1080u32.to_be_bytes());

    let res = parse_video_metadata_buf(&buf_h264_old, None).unwrap();
    assert_eq!(res.0, VideoCodec::H264);
    assert_eq!(res.1, 1920);
    assert_eq!(res.2, 1080);

    // Codec H265 (0x68323635), width 2560 (0x00000a00), height 1440 (0x000005a0)
    let mut buf_h265_old = [0u8; 12];
    buf_h265_old[0..4].copy_from_slice(&SC_CODEC_ID_H265.to_be_bytes());
    buf_h265_old[4..8].copy_from_slice(&2560u32.to_be_bytes());
    buf_h265_old[8..12].copy_from_slice(&1440u32.to_be_bytes());

    let res = parse_video_metadata_buf(&buf_h265_old, None).unwrap();
    assert_eq!(res.0, VideoCodec::H265);
    assert_eq!(res.1, 2560);
    assert_eq!(res.2, 1440);

    // 2. Test new v3.0+ SessionMeta format (16 bytes)
    let mut buf_h265_new = [0u8; 12];
    buf_h265_new[0..4].copy_from_slice(&SC_CODEC_ID_H265.to_be_bytes());
    buf_h265_new[4..8].copy_from_slice(&0x80000000u32.to_be_bytes());
    buf_h265_new[8..12].copy_from_slice(&1920u32.to_be_bytes());
    let height_buf = 1080u32.to_be_bytes();

    let res = parse_video_metadata_buf(&buf_h265_new, Some(&height_buf)).unwrap();
    assert_eq!(res.0, VideoCodec::H265);
    assert_eq!(res.1, 1920);
    assert_eq!(res.2, 1080);

    // Height buffer missing error case
    let res_err = parse_video_metadata_buf(&buf_h265_new, None);
    assert!(res_err.is_err());
}

#[test]
fn metadata_missing_height_message() {
    let mut buf = [0u8; 12];
    buf[0..4].copy_from_slice(&SC_CODEC_ID_H265.to_be_bytes());
    buf[4..8].copy_from_slice(&0x80000001u32.to_be_bytes());
    assert!(metadata_needs_height(&buf));
    assert_eq!(
        parse_video_metadata_buf(&buf, None).unwrap_err(),
        "Missing height buffer for v3.0+ SessionMeta format"
    );
}

#[test]
fn metadata_unknown_codec_in_hex() {
    let mut buf = [0u8; 12];
    buf[0..4].copy_from_slice(&0x0000abcdu32.to_be_bytes());
    buf[4..8].copy_from_slice(&640u32.to_be_bytes());
    buf[8..12].copy_from_slice(&480u32.to_be_bytes());
    assert!(!metadata_needs_height(&buf));
    assert_eq!(parse_video_metadata_buf(&buf, None).unwrap_err(), "Unknown video codec ID: 0xabcd");
}

#[test]
fn metadata_missing_height_comes_before_codec_check() {
    let mut buf = [0u8; 12];
    buf[0..4].copy_from_slice(&7u32.to_be_bytes());
    buf[4..8].copy_from_slice(&0x80000000u32.to_be_bytes());
    assert_eq!(
        parse_video_metadata_buf(&buf, None).unwrap_err(),
        "Missing height buffer for v3.0+ SessionMeta format"
    );
}

#[test]
fn metadata_av1_old_layout() {
    let mut buf = [0u8; 12];
    buf[0..4].copy_from_slice(&SC_CODEC_ID_AV1.to_be_bytes());
    buf[4..8].copy_from_slice(&1280u32.to_be_bytes());
    buf[8..12].copy_from_slice(&720u32.to_be_bytes());
    assert_eq!(parse_video_metadata_buf(&buf, None).unwrap(), (VideoCodec::AV1, 1280, 720));
}

#[test]
fn device_name_keeps_leading_nuls_and_empty() {
    assert_eq!(parse_device_name(b"\0\0Pixel"), "\0\0Pixel");
    assert_eq!(parse_device_name(b""), "");
    assert_eq!(parse_device_name(b"\0\0"), "");
    assert_eq!(parse_device_name("Gal\u{e1}xy".as_bytes()), "Gal\u{e1}xy");
}
