use llhls_rs::{parse_playlist, Decimal, MediaSegmentBuilder, MediaSegmentTag, PartialSegment};

#[test]
fn parse_uri() {
    let mut builder = MediaSegmentBuilder {
        duration: None,
        uri: None,
        partial_segments: Vec::new(),
        program_date_time: None,
    };
    let locator = MediaSegmentTag::Uri;
    locator.read(&mut builder, "fileSequence270.mp4").unwrap();
    assert_eq!(builder.uri.as_deref(), Some("fileSequence270.mp4"));
}

#[test]
fn fmt_partial_segment() {
    let part = PartialSegment {
        part_duration: Decimal { text: "0.33".to_string() },
        uri: "\"part.mp4\"".to_string(),
        independent: Option::None,
    };
    println!("part: {}", part.to_tag_string());
}

#[test]
fn parse_partial_segment() {
    let part = "#EXT-X-PART:DURATION=0.33334,URI=\"filePart272.a.mp4\"";
    let _partial_segment: PartialSegment = part.parse().unwrap();
}

#[test]
fn parse_ll_hls_lines() {
    let lines: Vec<String> = vec![
        "#EXTM3U".to_string(),
        "#EXT-X-TARGETDURATION:4".to_string(),
        "#EXT-X-VERSION:9".to_string(),
        "#EXT-X-SERVER-CONTROL:CAN-BLOCK-RELOAD=YES,PART-HOLD-BACK=1.0,CAN-SKIP-UNTIL=12.0"
            .to_string(),
        "#EXT-X-PART-INF:PART-TARGET=0.33334".to_string(),
        "#EXT-X-MEDIA-SEQUENCE:266".to_string(),
        "#EXT-X-PROGRAM-DATE-TIME:1970-01-01T00:00:01.500+00:00".to_string(),
        "#EXTINF:4.00008,".to_string(),
        "fileSequence266.mp4".to_string(),
        "#EXT-X-PART:DURATION=0.33334,URI=\"filePart267.0.mp4\"".to_string(),
        "#EXT-X-PART:DURATION=0.33334,URI=\"filePart267.1.mp4\",INDEPENDENT=YES".to_string(),
        "#EXTINF:4.00008,".to_string(),
        "fileSequence267.mp4".to_string(),
        "#EXT-X-PRELOAD-HINT:TYPE=PART,URI=\"filePart273.4.mp4\"".to_string(),
        "#EXT-X-RENDITION-REPORT:URI=\"../1M/waitForMSN.php\",LAST-MSN=273,LAST-PART=3"
            .to_string(),
        "#EXT-X-ENDLIST".to_string(),
    ];
    let playlist = parse_playlist(&lines).unwrap();
    assert_eq!(playlist.target_duration, 4);
    assert_eq!(playlist.version, 9);
    assert_eq!(playlist.media_sequence_number, 266);
    assert_eq!(playlist.part_inf.part_target.text, "0.33334");
    assert_eq!(playlist.media_segments.len(), 2);
    assert_eq!(playlist.media_segments[0].program_date_time, Some(1500));
    assert_eq!(playlist.media_segments[0].uri, "fileSequence266.mp4");
    assert_eq!(playlist.media_segments[1].partial_segments.len(), 2);
    assert_eq!(
        playlist.media_segments[1].partial_segments[1].independent,
        Some(true)
    );
    assert_eq!(playlist.rendition_reports.len(), 1);
    assert_eq!(playlist.rendition_reports[0].last_msn, 273);
    assert_eq!(playlist.rendition_reports[0].last_part, 3);
    assert!(playlist.preload_hint.is_some());
}
