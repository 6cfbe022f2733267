use transcodarr::facts::{
    SizeBucket, SizeThresholds, content_sig, derive_facts, size_bucket_for,
};
use transcodarr::plan::BitDepth;
use transcodarr::probe::{MediaProbe, StreamInfo, StreamKind};

fn probe(video: Option<StreamInfo>, audio: &[(&str, Option<&str>)]) -> MediaProbe {
    let mut streams = Vec::new();
    if let Some(v) = video {
        streams.push(v);
    }
    for (i, (codec, title)) in audio.iter().enumerate() {
        streams.push(StreamInfo {
            index: 10 + i as u32,
            kind: StreamKind::Audio,
            codec: (*codec).into(),
            title: title.map(|t| t.to_string()),
            ..Default::default()
        });
    }
    MediaProbe {
        container: "matroska".into(),
        duration_us: Some(3_600_000_000),
        streams,
        ..Default::default()
    }
}

fn vid(codec: &str, profile: Option<&str>, pix: Option<&str>) -> StreamInfo {
    StreamInfo {
        index: 0,
        kind: StreamKind::Video,
        codec: codec.into(),
        profile: profile.map(str::to_string),
        pix_fmt: pix.map(str::to_string),
        ..Default::default()
    }
}

#[test]
fn lossless_audio_is_flagged_for_conversion() {
    for codec in ["truehd", "dts", "flac", "pcm_s24le", "mlp"] {
        let f = derive_facts(&probe(None, &[(codec, None)]), 1);
        assert!(f.needs_audio_conversion(), "{codec} should convert");
    }
}

/// Opus is not lossless, but the owner does not want Opus output, so it is
/// treated as needing conversion.
#[test]
fn opus_is_converted_even_though_it_is_lossy() {
    let f = derive_facts(&probe(None, &[("opus", None)]), 1);
    assert!(f.needs_audio_conversion());
}

#[test]
fn already_acceptable_audio_is_left_alone() {
    for codec in ["aac", "ac3", "eac3", "mp3"] {
        let f = derive_facts(&probe(None, &[(codec, None)]), 1);
        assert!(!f.needs_audio_conversion(), "{codec} should be left alone");
    }
}

#[test]
fn hdr_video_is_never_encodable() {
    let f = derive_facts(
        &probe(Some(vid("hevc", Some("Main 10 smpte2084"), None)), &[]),
        1,
    );
    assert!(f.is_hdr);
    assert!(!f.video_is_encodable(), "HDR must never be re-encoded");
}

#[test]
fn dolby_vision_is_never_encodable() {
    let f = derive_facts(&probe(Some(vid("hevc", Some("dvhe.07"), None)), &[]), 1);
    assert!(f.is_dovi);
    assert!(!f.video_is_encodable());
}

/// Profile 7 is dual-layer and ffmpeg cannot round-trip it, so the file is
/// excluded from every kind of work, not merely from video encoding.
#[test]
fn dolby_vision_profile_7_is_excluded_entirely() {
    let f = derive_facts(&probe(Some(vid("hevc", Some("dvhe 7"), None)), &[]), 1);
    assert_eq!(f.dovi_profile, Some(7));
    assert!(f.is_excluded());
}

#[test]
fn object_audio_is_excluded_entirely() {
    let f = derive_facts(&probe(None, &[("truehd", Some("TrueHD 7.1 Atmos"))]), 1);
    assert!(f.has_object_audio);
    assert!(f.is_excluded(), "a channel re-encode would destroy Atmos");
}

#[test]
fn ordinary_sdr_video_is_encodable_and_not_excluded() {
    let f = derive_facts(
        &probe(
            Some(vid("h264", Some("High"), Some("yuv420p"))),
            &[("aac", None)],
        ),
        1,
    );
    assert!(f.video_is_encodable());
    assert!(!f.is_excluded());
}

#[test]
fn ten_bit_depth_survives_into_the_facts() {
    let f = derive_facts(
        &probe(Some(vid("hevc", Some("Main 10"), Some("yuv420p10le"))), &[]),
        1,
    );
    assert_eq!(f.video_bit_depth, Some(BitDepth::Ten));
}

#[test]
fn size_buckets_partition_at_the_thresholds() {
    let t = SizeThresholds::default();
    assert_eq!(size_bucket_for(1, &t), SizeBucket::Small);
    assert_eq!(
        size_bucket_for(10 * 1024 * 1024 * 1024, &t),
        SizeBucket::Medium
    );
    assert_eq!(
        size_bucket_for(60 * 1024 * 1024 * 1024, &t),
        SizeBucket::Large
    );
}

#[test]
fn content_sig_is_stable_for_identical_facts() {
    let p = probe(Some(vid("hevc", Some("Main 10"), None)), &[("eac3", None)]);
    assert_eq!(
        content_sig(&derive_facts(&p, 1)),
        content_sig(&derive_facts(&p, 1))
    );
}

/// Size is not part of the signature: a file whose size changed but whose
/// streams did not is still the same decision.
#[test]
fn content_sig_ignores_size_but_tracks_streams() {
    let p = probe(Some(vid("hevc", None, None)), &[("eac3", None)]);
    assert_eq!(
        content_sig(&derive_facts(&p, 1)),
        content_sig(&derive_facts(&p, 999_999))
    );

    let q = probe(Some(vid("hevc", None, None)), &[("truehd", None)]);
    assert_ne!(
        content_sig(&derive_facts(&p, 1)),
        content_sig(&derive_facts(&q, 1)),
        "changing the audio codec must change the signature"
    );
}
