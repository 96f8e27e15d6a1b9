use llhls_rs::{
    parse_playlist, parse_u32, read_attributes, Decimal, MediaPlaylist, PartInf, PartialSegment,
    PreloadHint, PreloadHintType, RenditionReport, ServerControl, Skip,
};
use llhls_rs::ParsePlaylistError;
use llhls_rs::{PartialSegmentAttribute, ServerControlAttribute, SkipAttribute};

fn doc(lines: &[&str]) -> Vec<String> {
    lines.iter().map(|l| l.to_string()).collect()
}

fn valid_header() -> Vec<String> {
    doc(&[
        "#EXTM3U",
        "#EXT-X-TARGETDURATION:6",
        "#EXT-X-VERSION:9",
        "#EXT-X-PART-INF:PART-TARGET=0.5",
        "#EXT-X-MEDIA-SEQUENCE:0",
        "#EXT-X-SERVER-CONTROL:CAN-BLOCK-RELOAD=YES,PART-HOLD-BACK=1.5,CAN-SKIP-UNTIL=6.0",
    ])
}

#[test]
fn basic_document_parses() {
    let mut lines = valid_header();
    lines.push("#EXTINF:6.0,".to_string());
    lines.push("file0.mp4".to_string());
    let playlist: MediaPlaylist = parse_playlist(&lines).unwrap();
    assert_eq!(playlist.target_duration, 6);
    assert_eq!(playlist.version, 9);
    assert_eq!(playlist.media_segments.len(), 1);
    assert_eq!(playlist.media_segments[0].duration.text, "6.0");
    assert_eq!(playlist.media_segments[0].uri, "file0.mp4");
    assert!(playlist.skip.is_none());
    assert!(playlist.preload_hint.is_none());
    assert_eq!(playlist.rendition_reports.len(), 0);
    assert_eq!(playlist.server_control.can_block_reload, true);
    assert_eq!(playlist.server_control.part_hold_back.text, "1.5");
}

#[test]
fn header_missing_fails() {
    let lines = doc(&["#EXT-X-VERSION:9"]);
    let err = parse_playlist(&lines).unwrap_err();
    assert!(matches!(err, ParsePlaylistError::EXT3U_TAG_MISSING));
}

#[test]
fn empty_document_fails_as_header_missing() {
    let lines: Vec<String> = Vec::new();
    let err = parse_playlist(&lines).unwrap_err();
    assert!(matches!(err, ParsePlaylistError::EXT3U_TAG_MISSING));
}

#[test]
fn two_parts_make_one_segment() {
    let mut lines = valid_header();
    lines.push("#EXTINF:6.0,".to_string());
    lines.push("#EXT-X-PART:DURATION=0.5,URI=\"p0.mp4\"".to_string());
    lines.push("#EXT-X-PART:DURATION=0.5,URI=\"p1.mp4\"".to_string());
    lines.push("seg.mp4".to_string());
    let playlist = parse_playlist(&lines).unwrap();
    assert_eq!(playlist.media_segments.len(), 1);
    let segment = &playlist.media_segments[0];
    assert_eq!(segment.partial_segments.len(), 2);
    assert_eq!(segment.partial_segments[0].uri, "\"p0.mp4\"");
    assert_eq!(segment.partial_segments[1].uri, "\"p1.mp4\"");
}

#[test]
fn missing_can_block_reload_fails_document() {
    let lines = doc(&[
        "#EXTM3U",
        "#EXT-X-TARGETDURATION:6",
        "#EXT-X-VERSION:9",
        "#EXT-X-PART-INF:PART-TARGET=0.5",
        "#EXT-X-MEDIA-SEQUENCE:0",
        "#EXT-X-SERVER-CONTROL:PART-HOLD-BACK=1.5,CAN-SKIP-UNTIL=6.0",
    ]);
    let err = parse_playlist(&lines).unwrap_err();
    assert!(matches!(err, ParsePlaylistError::BUILDER_ERROR));
}

#[test]
fn independent_outside_vocabulary_fails_document() {
    let mut lines = valid_header();
    lines.push("#EXT-X-PART:DURATION=0.5,URI=\"p0.mp4\",INDEPENDENT=MAYBE".to_string());
    lines.push("seg.mp4".to_string());
    let err = parse_playlist(&lines).unwrap_err();
    assert!(matches!(err, ParsePlaylistError::BUILDER_ERROR));
}

#[test]
fn partial_segment_round_trip() {
    let first: PartialSegment = "#EXT-X-PART:DURATION=0.33334,URI=\"part.mp4\",INDEPENDENT=YES"
        .parse()
        .unwrap();
    let serialized = first.to_tag_string();
    assert_eq!(
        serialized,
        "#EXT-X-PART:DURATION=0.33334,URI=\"part.mp4\",INDEPENDENT=YES"
    );
    let second: PartialSegment = serialized.parse().unwrap();
    assert_eq!(second.part_duration.text, first.part_duration.text);
    assert_eq!(second.uri, first.uri);
    assert_eq!(second.independent, first.independent);
}

#[test]
fn independent_no_serializes_as_false() {
    let part: PartialSegment = "#EXT-X-PART:DURATION=0.5,URI=\"p.mp4\",INDEPENDENT=NO"
        .parse()
        .unwrap();
    assert_eq!(part.independent, Some(false));
    assert_eq!(
        part.to_tag_string(),
        "#EXT-X-PART:DURATION=0.5,URI=\"p.mp4\",INDEPENDENT=FALSE"
    );
}

#[test]
fn attribute_list_splitting() {
    let pairs = read_attributes("A=1,B=\"x,y\",junk,C=2,A=3");
    let as_pairs: Vec<(&str, &str)> = pairs
        .iter()
        .map(|(k, v)| (k.as_str(), v.as_str()))
        .collect();
    assert_eq!(
        as_pairs,
        vec![("A", "3"), ("B", "\"x,y\""), ("C", "2")]
    );
}

#[test]
fn attribute_missing_required_field_fails_tag() {
    assert!(PartialSegment::from_attrs("DURATION=0.5").is_err());
    assert!(PartialSegment::from_attrs("URI=\"p.mp4\"").is_err());
    assert!(PartialSegment::from_attrs("DURATION=0.5,URI=\"p.mp4\"").is_ok());
}

#[test]
fn unknown_attributes_are_ignored() {
    let part = PartialSegment::from_attrs("DURATION=0.5,URI=\"p.mp4\",FUTURE-THING=1").unwrap();
    assert_eq!(part.part_duration.text, "0.5");
    assert_eq!(part.independent, None);
}

#[test]
fn unknown_tags_are_ignored() {
    let mut lines = valid_header();
    lines.push("#EXT-X-DATERANGE:ID=\"x\"".to_string());
    lines.push("# just a comment".to_string());
    lines.push("".to_string());
    assert!(parse_playlist(&lines).is_ok());
}

#[test]
fn tag_without_colon_fails_document() {
    let mut lines = valid_header();
    lines.push("#EXT-X-BROKEN".to_string());
    let err = parse_playlist(&lines).unwrap_err();
    assert!(matches!(err, ParsePlaylistError::BUILDER_ERROR));
}

#[test]
fn extinf_without_comma_fails_document() {
    let mut lines = valid_header();
    lines.push("#EXTINF:6.0".to_string());
    lines.push("seg.mp4".to_string());
    let err = parse_playlist(&lines).unwrap_err();
    assert!(matches!(err, ParsePlaylistError::BUILDER_ERROR));
}

#[test]
fn locator_without_duration_fails_document() {
    let mut lines = valid_header();
    lines.push("seg.mp4".to_string());
    let err = parse_playlist(&lines).unwrap_err();
    assert!(matches!(err, ParsePlaylistError::BUILDER_ERROR));
}

#[test]
fn invalid_locator_fails_document() {
    let mut lines = valid_header();
    lines.push("#EXTINF:6.0,".to_string());
    lines.push("not a uri".to_string());
    let err = parse_playlist(&lines).unwrap_err();
    assert!(matches!(err, ParsePlaylistError::BUILDER_ERROR));
}

#[test]
fn invalid_program_date_time_fails_document() {
    let mut lines = valid_header();
    lines.push("#EXT-X-PROGRAM-DATE-TIME:not-a-date".to_string());
    lines.push("#EXTINF:6.0,".to_string());
    lines.push("seg.mp4".to_string());
    let err = parse_playlist(&lines).unwrap_err();
    assert!(matches!(err, ParsePlaylistError::BUILDER_ERROR));
}

#[test]
fn trailing_tags_without_locator_are_discarded() {
    let mut lines = valid_header();
    lines.push("#EXTINF:6.0,".to_string());
    lines.push("seg.mp4".to_string());
    lines.push("#EXTINF:6.0,".to_string());
    let playlist = parse_playlist(&lines).unwrap();
    assert_eq!(playlist.media_segments.len(), 1);
}

#[test]
fn skip_tag_with_dateranges() {
    let mut lines = valid_header();
    lines.push("#EXT-X-SKIP:SKIPPED-SEGMENTS=3,RECENTLY-REMOVED-DATERANGES=a\tb\tc".to_string());
    let playlist = parse_playlist(&lines).unwrap();
    let skip: Skip = playlist.skip.unwrap();
    assert_eq!(skip.skipped_segments, 3);
    assert_eq!(skip.recently_removed_dateranges, vec!["a", "b", "c"]);
}

#[test]
fn skip_tag_default_dateranges_empty() {
    let skip = Skip::from_str("SKIPPED-SEGMENTS=12").unwrap();
    assert_eq!(skip.skipped_segments, 12);
    assert!(skip.recently_removed_dateranges.is_empty());
}

#[test]
fn preload_hint_requires_type_and_uri() {
    assert!(PreloadHint::from_str("TYPE=PART").is_err());
    assert!(PreloadHint::from_str("URI=\"x\"").is_err());
    assert!(PreloadHint::from_str("TYPE=MAYBE,URI=\"x\"").is_err());
    let hint = PreloadHint::from_str("TYPE=MAP,URI=\"map.mp4\"").unwrap();
    assert!(matches!(hint.hint_type, PreloadHintType::MapResource));
    assert_eq!(hint.uri, "\"map.mp4\"");
    assert!(hint.byterange_start.is_none());
    assert!(hint.byterange_length.is_none());
}

#[test]
fn rendition_report_requires_all_fields() {
    assert!(RenditionReport::from_str("URI=\"r.m3u8\",LAST-MSN=5").is_err());
    let report = RenditionReport::from_str("URI=\"r.m3u8\",LAST-MSN=5,LAST-PART=2").unwrap();
    assert_eq!(report.uri, "\"r.m3u8\"");
    assert_eq!(report.last_msn, 5);
    assert_eq!(report.last_part, 2);
}

#[test]
fn part_inf_requires_part_target() {
    assert!(PartInf::from_str("OTHER=1").is_err());
    assert!(PartInf::from_str("PART-TARGET=abc").is_err());
    let part_inf = PartInf::from_str("PART-TARGET=0.33334").unwrap();
    assert_eq!(part_inf.part_target.text, "0.33334");
}

#[test]
fn server_control_values() {
    let control =
        ServerControl::from_str("CAN-BLOCK-RELOAD=NO,PART-HOLD-BACK=1.0,CAN-SKIP-UNTIL=12.5")
            .unwrap();
    assert_eq!(control.can_block_reload, false);
    assert_eq!(control.part_hold_back.text, "1.0");
    assert_eq!(control.can_skip_until.text, "12.5");
    assert!(ServerControl::from_str(
        "CAN-BLOCK-RELOAD=TRUE,PART-HOLD-BACK=1.0,CAN-SKIP-UNTIL=12.5"
    )
    .is_err());
}

#[test]
fn unsigned_integer_grammar() {
    assert_eq!(parse_u32("0"), Some(0));
    assert_eq!(parse_u32("007"), Some(7));
    assert_eq!(parse_u32("4294967295"), Some(4294967295));
    assert_eq!(parse_u32("4294967296"), None);
    assert_eq!(parse_u32(""), None);
    assert_eq!(parse_u32("12a"), None);
    assert_eq!(parse_u32("-1"), None);
}

#[test]
fn repeated_attribute_keeps_last_value() {
    let part = PartialSegment::from_attrs("DURATION=abc,URI=\"p.mp4\",DURATION=0.5").unwrap();
    assert_eq!(part.part_duration.text, "0.5");
    assert!(PartialSegment::from_attrs("DURATION=0.5,URI=\"p.mp4\",DURATION=abc").is_err());
}

#[test]
fn attribute_name_classification() {
    assert!(PartialSegmentAttribute::from_str("DURATION").is_ok());
    assert!(PartialSegmentAttribute::from_str("BOGUS").is_err());
    assert!(ServerControlAttribute::from_str("CAN-BLOCK-RELOAD").is_ok());
    assert!(ServerControlAttribute::from_str("HOLD-BACK").is_err());
    assert!(SkipAttribute::from_str("SKIPPED-SEGMENTS").is_ok());
    assert!(SkipAttribute::from_str("SKIPPED").is_err());
}

#[test]
fn decimal_grammar() {
    assert!(Decimal::parse("0.33334").is_some());
    assert!(Decimal::parse("6").is_some());
    assert!(Decimal::parse("-1.5").is_some());
    assert!(Decimal::parse("1.").is_none());
    assert!(Decimal::parse(".5").is_none());
    assert!(Decimal::parse("1.2.3").is_none());
    assert!(Decimal::parse("abc").is_none());
    assert!(Decimal::parse("").is_none());
}
