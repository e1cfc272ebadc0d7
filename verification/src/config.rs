//! The stored configuration: the upgrade applied to an older stored file,
//! and the language chosen when none is stored.

use vstd::prelude::*;
use crate::scrcpy::media::VideoCodec;

verus! {

/// The stored settings that an upgrade of the configuration file may rewrite.
#[derive(Debug, Clone, Copy, PartialEq, Eq, Structural)]
pub struct StoredVideoSettings {
    pub video_codec: VideoCodec,
    pub video_max_size: u32,
    pub video_max_fps: u32,
    pub video_bit_rate: u32,
    pub video_qcom_low_latency: bool,
    pub config_version: u32,
}

/// The upgrade: H.264 becomes H.265, an unset size becomes 1920 and an unset
/// frame rate 60, the old default bit rate of 8 000 000 becomes 16 000 000,
/// version 0 becomes 1, and a file older than version 2 gets the Qualcomm
/// low-latency switch turned off and version 2. The flag says whether
/// anything was rewritten.
pub open spec fn migrate_model(c: StoredVideoSettings) -> (StoredVideoSettings, bool) {
    let codec = if c.video_codec == VideoCodec::H264 { VideoCodec::H265 } else { c.video_codec };
    let size = if c.video_max_size == 0 { 1920u32 } else { c.video_max_size };
    let fps = if c.video_max_fps == 0 { 60u32 } else { c.video_max_fps };
    let rate = if c.video_bit_rate == 8_000_000 { 16_000_000u32 } else { c.video_bit_rate };
    let v1 = if c.config_version == 0 { 1u32 } else { c.config_version };
    let (qcom, v2) = if v1 < 2 { (false, 2u32) } else { (c.video_qcom_low_latency, v1) };
    let migrated = c.video_codec == VideoCodec::H264 || c.video_max_size == 0 || c.video_max_fps == 0
        || c.video_bit_rate == 8_000_000 || c.config_version == 0 || v1 < 2;
    (
        StoredVideoSettings {
            video_codec: codec,
            video_max_size: size,
            video_max_fps: fps,
            video_bit_rate: rate,
            video_qcom_low_latency: qcom,
            config_version: v2,
        },
        migrated,
    )
}

/// Upgrades settings read from an older configuration file; returns whether
/// anything changed (and so whether the file must be written back).
pub fn migrate(c: &mut StoredVideoSettings) -> (migrated: bool)
    ensures
        (*final(c), migrated) == migrate_model(*old(c)),
{
    let mut migrated = false;
    if c.video_codec == VideoCodec::H264 {
        c.video_codec = VideoCodec::H265;
        migrated = true;
    }
    if c.video_max_size == 0 {
        c.video_max_size = 1920;
        migrated = true;
    }
    if c.video_max_fps == 0 {
        c.video_max_fps = 60;
        migrated = true;
    }
    if c.video_bit_rate == 8_000_000 {
        c.video_bit_rate = 16_000_000;
        migrated = true;
    }
    if c.config_version == 0 {
        c.config_version = 1;
        migrated = true;
    }
    if c.config_version < 2 {
        if c.video_qcom_low_latency {
            c.video_qcom_low_latency = false;
        }
        c.config_version = 2;
        migrated = true;
    }
    migrated
}

/// Upgrading an upgraded file changes nothing and asks for no write.
pub proof fn law_migrate_idempotent(c: StoredVideoSettings)
    ensures
        migrate_model(migrate_model(c).0) == (migrate_model(c).0, false),
{
}

/// The language for a `LANG` value: Chinese and Turkish locales have their
/// own; anything else, or no value, gives English.
pub open spec fn language_model(lang: Option<Seq<char>>) -> Seq<char> {
    match lang {
        Some(l) => if l.len() >= 2 && l.take(2) == "zh"@ {
            "zh-CN"@
        } else if l.len() >= 2 && l.take(2) == "tr"@ {
            "tr-TR"@
        } else {
            "en-US"@
        },
        None => "en-US"@,
    }
}

/// Whether `l` starts with the two characters `a b`.
fn starts_with2(l: &str, a: char, b: char) -> (r: bool)
    ensures
        r == (l@.len() >= 2 && l@[0] == a && l@[1] == b),
{
    l.unicode_len() >= 2 && l.get_char(0) == a && l.get_char(1) == b
}

/// The interface language to use when the configuration names none, from
/// the value of `LANG` if it is set.
pub fn system_language(lang: Option<&str>) -> (r: String)
    ensures
        r@ == language_model(match lang { Some(l) => Some(l@), None => None }),
{
    proof {
        reveal_strlit("zh");
        reveal_strlit("tr");
    }
    match lang {
        Some(l) => {
            let zh = starts_with2(l, 'z', 'h');
            let tr = starts_with2(l, 't', 'r');
            proof {
                if l@.len() >= 2 {
                if zh {
                    assert(l@.take(2) =~= "zh"@);
                } else {
                    assert(l@.take(2)[0] == l@[0] && l@.take(2)[1] == l@[1]);
                }
                if tr {
                    assert(l@.take(2) =~= "tr"@);
                } else {
                    assert(l@.take(2)[0] == l@[0] && l@.take(2)[1] == l@[1]);
                }
                }
            }
            if zh {
                String::from_str("zh-CN")
            } else if tr {
                String::from_str("tr-TR")
            } else {
                String::from_str("en-US")
            }
        },
        None => String::from_str("en-US"),
    }
}

} // verus!
