use transcodarr::error::CoreError;
use transcodarr::plan::BitDepth;
use transcodarr::probe::{
    MediaProbe, RawProbe, RawStream, StreamKind, bit_depth_of, typed_probe,
};

/// Read ffprobe's JSON and type what it says.
fn parse_ffprobe_json(json: &str) -> Result<MediaProbe, CoreError> {
    let v: serde_json::Value =
        serde_json::from_str(json).map_err(|e| CoreError::MalformedProbe(e.to_string()))?;
    let text = |x: &serde_json::Value| x.as_str().map(String::from);
    let none: Vec<serde_json::Value> = Vec::new();
    let streams = v["streams"]
        .as_array()
        .unwrap_or(&none)
        .iter()
        .map(|s| RawStream {
            index: s["index"].as_u64().unwrap_or(0) as u32,
            codec_type: text(&s["codec_type"]),
            codec_name: text(&s["codec_name"]).unwrap_or_default(),
            profile: text(&s["profile"]),
            pix_fmt: text(&s["pix_fmt"]),
            width: s["width"].as_u64().map(|n| n as u32),
            height: s["height"].as_u64().map(|n| n as u32),
            bits_per_raw_sample: text(&s["bits_per_raw_sample"]),
            channels: s["channels"].as_u64().map(|n| n as u16),
            channel_layout: text(&s["channel_layout"]),
            bit_rate: text(&s["bit_rate"]),
            language: text(&s["tags"]["language"]),
            title: text(&s["tags"]["title"]),
            default_flag: s["disposition"]["default"].as_u64().unwrap_or(0) as u8,
            forced_flag: s["disposition"]["forced"].as_u64().unwrap_or(0) as u8,
        })
        .collect();
    let f = &v["format"];
    Ok(typed_probe(RawProbe {
        format_name: text(&f["format_name"]).unwrap_or_default(),
        duration_us: text(&f["duration"])
            .and_then(|d| d.parse::<f64>().ok())
            .map(|s| (s * 1_000_000.0) as u64),
        bit_rate: text(&f["bit_rate"]),
        size: text(&f["size"]),
        streams,
    }))
}

const SAMPLE: &str = r#"{
  "streams": [
    {"index":0,"codec_type":"video","codec_name":"hevc","profile":"Main 10",
     "pix_fmt":"yuv420p10le","width":1920,"height":1080,
     "bits_per_raw_sample":"10","disposition":{"default":1,"forced":0}},
    {"index":1,"codec_type":"audio","codec_name":"truehd","channels":8,
     "channel_layout":"7.1","tags":{"language":"eng","title":"Atmos"},
     "disposition":{"default":1,"forced":0}},
    {"index":2,"codec_type":"audio","codec_name":"eac3","channels":6,
     "tags":{"language":"eng"},"disposition":{"default":0,"forced":0}},
    {"index":3,"codec_type":"subtitle","codec_name":"subrip",
     "tags":{"language":"eng"},"disposition":{"default":0,"forced":1}}
  ],
  "format": {"format_name":"matroska,webm","duration":"7245.500000",
             "bit_rate":"8000000","size":"7245000000"}
}"#;

#[test]
fn parses_streams_and_format() {
    let p = parse_ffprobe_json(SAMPLE).unwrap();
    assert_eq!(p.container, "matroska,webm");
    assert_eq!(p.duration_us, Some(7_245_500_000));
    assert_eq!(p.streams.len(), 4);
    assert_eq!(p.audio_count(), 2);
    assert_eq!(p.subtitle_count(), 1);
}

#[test]
fn every_audio_and_subtitle_stream_is_visible() {
    // A bare `-c:a eac3` silently drops every track but the default, so the
    // model has to see all of them or the planner cannot map them.
    let p = parse_ffprobe_json(SAMPLE).unwrap();
    let langs: Vec<_> = p
        .streams_of(StreamKind::Audio)
        .into_iter()
        .map(|s| s.codec.as_str())
        .collect();
    assert_eq!(langs, vec!["truehd", "eac3"]);
    assert!(p.streams_of(StreamKind::Subtitle).iter().any(|s| s.is_forced));
}

#[test]
fn ten_bit_is_detected_from_the_tag() {
    let p = parse_ffprobe_json(SAMPLE).unwrap();
    let v = p.primary_video().unwrap();
    assert_eq!(
        bit_depth_of(v.pix_fmt.as_deref(), v.bit_depth),
        BitDepth::Ten
    );
}

#[test]
fn ten_bit_is_detected_from_pix_fmt_when_the_tag_is_missing() {
    assert_eq!(bit_depth_of(Some("yuv420p10le"), None), BitDepth::Ten);
    assert_eq!(bit_depth_of(Some("p010le"), None), BitDepth::Ten);
}

#[test]
fn unknown_depth_is_assumed_eight_never_ten() {
    // The conservative direction: guessing 8 can never cause an upconvert.
    assert_eq!(bit_depth_of(None, None), BitDepth::Eight);
    assert_eq!(bit_depth_of(Some("yuv420p"), None), BitDepth::Eight);
}

#[test]
fn missing_optional_fields_are_not_an_error() {
    let minimal = r#"{"streams":[],"format":{"format_name":"mov,mp4"}}"#;
    let p = parse_ffprobe_json(minimal).unwrap();
    assert_eq!(p.duration_us, None);
    assert!(p.streams.is_empty());
}

#[test]
fn malformed_json_is_an_error() {
    assert!(parse_ffprobe_json("{not json").is_err());
}
