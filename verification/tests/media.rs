use scrcpy_mask::scrcpy::media::{
    MediaPacket, PacketMerger, VideoCodec, parse_packet_header, read_be32, read_be64, strip_row_padding,
    SC_CODEC_ID_AV1, SC_CODEC_ID_H264, SC_CODEC_ID_H265,
};
use scrcpy_mask::scrcpy::session::{ConnectCommand, VideoOptions, reverse_tunnel, scale_to_device, server_args, session_connections};

#[test]
fn codec_ids_and_names() {
    assert_eq!(VideoCodec::from_id(SC_CODEC_ID_H264), Some(VideoCodec::H264));
    assert_eq!(VideoCodec::from_id(SC_CODEC_ID_H265), Some(VideoCodec::H265));
    assert_eq!(VideoCodec::from_id(SC_CODEC_ID_AV1), Some(VideoCodec::AV1));
    assert_eq!(VideoCodec::from_id(0x1234), None);
    assert_eq!(VideoCodec::H264.name(), "h264");
    assert_eq!(VideoCodec::H265.name(), "h265");
    assert_eq!(VideoCodec::AV1.name(), "av1");
    assert!(VideoCodec::H264.must_merge_config());
    assert!(VideoCodec::H265.must_merge_config());
    assert!(!VideoCodec::AV1.must_merge_config());
}

#[test]
fn big_endian_reads() {
    let b = [0x12u8, 0x34, 0x56, 0x78, 0x9a, 0xbc, 0xde, 0xf0, 0x01];
    assert_eq!(read_be32(&b, 0), 0x1234_5678);
    assert_eq!(read_be32(&b, 5), 0xbcde_f001);
    assert_eq!(read_be64(&b, 0), 0x1234_5678_9abc_def0);
}

#[test]
fn packet_header_config_key_and_pts() {
    let config = [0x40u8, 0, 0, 0, 0, 0, 0, 5, 0, 0, 0, 33];
    let h = parse_packet_header(&config);
    assert_eq!(h.pts, None);
    assert!(!h.key_frame);
    assert_eq!(h.len, 33);

    let key = [0x20u8, 0, 0, 0, 0, 0, 0x01, 0x00, 0, 0, 0x01, 0x02];
    let h = parse_packet_header(&key);
    assert_eq!(h.pts, Some(256));
    assert!(h.key_frame);
    assert_eq!(h.len, 258);

    let plain = [0x1fu8, 0xff, 0xff, 0xff, 0xff, 0xff, 0xff, 0xff, 0, 0, 0, 0];
    let h = parse_packet_header(&plain);
    assert_eq!(h.pts, Some(0x1fff_ffff_ffff_ffff));
    assert!(!h.key_frame);
    assert_eq!(h.len, 0);
}

#[test]
fn merger_prepends_config_once() {
    let mut m = PacketMerger::new();
    let mut cfg = MediaPacket { data: vec![1, 2, 3], pts: None };
    m.merge(&mut cfg);
    assert_eq!(cfg.data, vec![1, 2, 3]);
    let mut media = MediaPacket { data: vec![9, 8], pts: Some(10) };
    m.merge(&mut media);
    assert_eq!(media.data, vec![1, 2, 3, 9, 8]);
    assert_eq!(media.pts, Some(10));
    let mut next = MediaPacket { data: vec![7], pts: Some(11) };
    m.merge(&mut next);
    assert_eq!(next.data, vec![7]);
}

#[test]
fn merger_ignores_empty_config() {
    let mut m = PacketMerger::new();
    let mut cfg = MediaPacket { data: vec![], pts: None };
    m.merge(&mut cfg);
    let mut media = MediaPacket { data: vec![4, 5], pts: Some(1) };
    m.merge(&mut media);
    assert_eq!(media.data, vec![4, 5]);
}

#[test]
fn padding_is_stripped_row_by_row() {
    let src = [1u8, 2, 3, 0, 4, 5, 6, 0];
    assert_eq!(strip_row_padding(&src, 4, 3, 2), vec![1, 2, 3, 4, 5, 6]);
    let packed = [1u8, 2, 3, 4];
    assert_eq!(strip_row_padding(&packed, 2, 2, 2), vec![1, 2, 3, 4]);
    assert_eq!(strip_row_padding(&packed, 2, 2, 0), Vec::<u8>::new());
}

fn options(codec_options: &str) -> VideoOptions {
    VideoOptions {
        codec: VideoCodec::H265,
        bit_rate: 16_000_000,
        max_size: 1920,
        max_fps: 0,
        low_latency: true,
        realtime_priority: false,
        qcom_low_latency: true,
        intra_refresh: false,
        codec_options: codec_options.to_string(),
    }
}

#[test]
fn server_command_line_for_main_video() {
    let args = server_args("3.3.1", "1234", true, 0, true, &options("profile=1"));
    assert_eq!(
        args,
        vec![
            "CLASSPATH=/data/local/tmp/scrcpy-server.jar",
            "app_process",
            "/",
            "com.genymobile.scrcpy.Server",
            "3.3.1",
            "scid=1234",
            "video=true",
            "display_id=0",
            "audio=false",
            "video_codec=h265",
            "video_bit_rate=16000000",
            "max_size=1920",
            "video_codec_options=latency=0,vendor.qti-ext-enc-low-latency.enable=1,profile=1",
        ]
    );
}

#[test]
fn server_command_line_for_sub_device() {
    let args = server_args("3.3.1", "77", false, -1, false, &options(""));
    assert_eq!(
        args,
        vec![
            "CLASSPATH=/data/local/tmp/scrcpy-server.jar",
            "app_process",
            "/",
            "com.genymobile.scrcpy.Server",
            "3.3.1",
            "scid=77",
            "video=false",
            "display_id=-1",
            "audio=false",
        ]
    );
}

#[test]
fn connections_of_a_session() {
    let scid = "42".to_string();
    let (ids, cmds) = session_connections(&scid, true, true);
    assert_eq!(ids, vec!["main_video", "main_control"]);
    assert_eq!(
        cmds,
        vec![
            ConnectCommand::MainVideo { scid: scid.clone(), meta: true },
            ConnectCommand::MainControl { scid: scid.clone(), meta: false },
        ]
    );
    let (ids, cmds) = session_connections(&scid, false, true);
    assert_eq!(ids, vec!["main_control"]);
    assert_eq!(cmds, vec![ConnectCommand::MainControl { scid: scid.clone(), meta: true }]);
    let (ids, cmds) = session_connections(&scid, true, false);
    assert_eq!(ids, vec!["sub_control_42"]);
    assert_eq!(cmds, vec![ConnectCommand::SubControl { scid: scid.clone() }]);
}

#[test]
fn positions_scale_to_the_device() {
    assert_eq!(scale_to_device(100, 50, 200, 100, Some((1080, 2400)), (720, 1600)), (540, 1200, 1080, 2400));
    assert_eq!(scale_to_device(100, 50, 200, 100, Some((0, 2400)), (720, 1600)), (360, 800, 720, 1600));
    assert_eq!(scale_to_device(100, 50, 200, 100, None, (720, 1600)), (360, 800, 720, 1600));
    assert_eq!(scale_to_device(-3, 7, 2, 2, None, (3, 3)), (-4, 10, 3, 3));
    assert_eq!(scale_to_device(100, 50, 0, 100, None, (720, 1600)), (100, 50, 720, 1600));
}

#[test]
fn reverse_tunnel_names() {
    assert_eq!(reverse_tunnel("10123456", 27799), ("localabstract:scrcpy_10123456".to_string(), "tcp:27799".to_string()));
}
