use video_smart_downloader::catalog::{build_catalog, RawFormat};
use video_smart_downloader::errors::CoreError;
use video_smart_downloader::metadata::{parse_info_output, parse_metadata};

fn raw(height: Option<u64>, vcodec: Option<&str>, format_id: Option<&str>) -> RawFormat {
    RawFormat {
        height,
        vcodec: vcodec.map(|s| s.to_string()),
        format_id: format_id.map(|s| s.to_string()),
        ext: None,
        filesize: None,
    }
}

#[test]
fn catalog_sorted_descending_and_unique() {
    let formats = vec![
        raw(Some(360), Some("avc1"), Some("a")),
        raw(Some(1080), Some("avc1"), Some("b")),
        raw(Some(144), Some("avc1"), Some("c")),
        raw(Some(1080), Some("vp9"), Some("d")),
        raw(Some(720), Some("avc1"), Some("e")),
    ];
    let info = build_catalog(Some("t".to_string()), None, Some(formats)).unwrap();
    let resolutions: Vec<&str> = info.formats.iter().map(|f| f.resolution.as_str()).collect();
    assert_eq!(resolutions, vec!["1080p", "720p", "360p", "144p"]);
}

#[test]
fn catalog_tie_keeps_first_in_source_order() {
    let formats = vec![
        raw(Some(720), Some("avc1"), Some("first-720")),
        raw(Some(720), Some("vp9"), Some("second-720")),
    ];
    let info = build_catalog(None, None, Some(formats)).unwrap();
    assert_eq!(info.formats.len(), 1);
    assert_eq!(info.formats[0].format_id, "first-720");
    assert_eq!(info.formats[0].resolution, "720p");
}

#[test]
fn catalog_missing_formats_is_no_supported_formats() {
    let r = build_catalog(Some("t".to_string()), Some("u".to_string()), None);
    assert!(matches!(r, Err(CoreError::NoSupportedFormats)));
}

#[test]
fn catalog_audio_only_is_no_supported_formats() {
    let formats = vec![
        raw(Some(720), Some("none"), Some("a")),
        raw(Some(1080), Some("none"), Some("b")),
    ];
    let r = build_catalog(None, None, Some(formats));
    assert!(matches!(r, Err(CoreError::NoSupportedFormats)));
}

#[test]
fn catalog_missing_vcodec_is_dropped() {
    let formats = vec![raw(Some(720), None, Some("a"))];
    let r = build_catalog(None, None, Some(formats));
    assert!(matches!(r, Err(CoreError::NoSupportedFormats)));
}

#[test]
fn catalog_disallowed_height_is_dropped() {
    let formats = vec![
        raw(Some(9999), Some("avc1"), Some("a")),
        raw(None, Some("avc1"), Some("b")),
        raw(Some(480), Some("avc1"), Some("c")),
    ];
    let info = build_catalog(None, None, Some(formats)).unwrap();
    assert_eq!(info.formats.len(), 1);
    assert_eq!(info.formats[0].resolution, "480p");
    assert_eq!(info.formats[0].format_id, "c");
}

#[test]
fn catalog_field_defaults() {
    let formats = vec![RawFormat {
        height: Some(1440),
        vcodec: Some("avc1".to_string()),
        format_id: None,
        ext: None,
        filesize: None,
    }];
    let info = build_catalog(None, None, Some(formats)).unwrap();
    assert_eq!(info.title, "unknown title");
    assert_eq!(info.thumbnail, "");
    assert_eq!(info.formats[0].format_id, "");
    assert_eq!(info.formats[0].ext, "mp4");
    assert_eq!(info.formats[0].filesize, 0);
    assert_eq!(info.formats[0].resolution, "1440p");
}

#[test]
fn catalog_fields_carried_over() {
    let formats = vec![RawFormat {
        height: Some(2160),
        vcodec: Some("vp9".to_string()),
        format_id: Some("fmt-2160".to_string()),
        ext: Some("webm".to_string()),
        filesize: Some(123456),
    }];
    let info = build_catalog(Some("My Video".to_string()), Some("http://x/t.jpg".to_string()), Some(formats)).unwrap();
    assert_eq!(info.title, "My Video");
    assert_eq!(info.thumbnail, "http://x/t.jpg");
    assert_eq!(info.formats[0].format_id, "fmt-2160");
    assert_eq!(info.formats[0].ext, "webm");
    assert_eq!(info.formats[0].filesize, 123456);
    assert_eq!(info.formats[0].resolution, "2160p");
}

#[test]
fn parse_metadata_end_to_end() {
    let json = "{\"title\":\"Demo\",\"thumbnail\":\"http://t/i.jpg\",\"formats\":[\
        {\"format_id\":\"a\",\"height\":144,\"vcodec\":\"avc1\"},\
        {\"format_id\":\"b\",\"height\":360,\"vcodec\":\"avc1\"},\
        {\"format_id\":\"c\",\"height\":360,\"vcodec\":\"vp9\"},\
        {\"format_id\":\"d\",\"height\":720,\"vcodec\":\"avc1\"},\
        {\"format_id\":\"e\",\"height\":1080,\"vcodec\":\"avc1\"},\
        {\"format_id\":\"f\",\"height\":9999,\"vcodec\":\"avc1\"}]}";
    let info = parse_metadata(json).unwrap();
    assert_eq!(info.title, "Demo");
    assert_eq!(info.thumbnail, "http://t/i.jpg");
    let resolutions: Vec<&str> = info.formats.iter().map(|f| f.resolution.as_str()).collect();
    assert_eq!(resolutions, vec!["1080p", "720p", "360p", "144p"]);
    assert_eq!(info.formats[2].format_id, "b");
}

#[test]
fn parse_metadata_rejects_bad_json() {
    let r = parse_metadata("this is not json");
    assert!(matches!(r, Err(CoreError::JsonParseFailed(_))));
}

#[test]
fn parse_metadata_no_formats_array() {
    let r = parse_metadata("{\"title\":\"Demo\"}");
    assert!(matches!(r, Err(CoreError::NoSupportedFormats)));
}

#[test]
fn parse_metadata_wrongly_typed_fields_default() {
    let json = "{\"title\":17,\"thumbnail\":null,\"formats\":[{\"height\":720,\"vcodec\":\"avc1\",\"filesize\":\"big\"}]}";
    let info = parse_metadata(json).unwrap();
    assert_eq!(info.title, "unknown title");
    assert_eq!(info.thumbnail, "");
    assert_eq!(info.formats[0].filesize, 0);
}

#[test]
fn parse_info_output_failed_exit() {
    let r = parse_info_output(false, "{}", "boom".to_string());
    match r {
        Err(CoreError::ExtractionFailed(s)) => assert_eq!(s, "boom"),
        _ => panic!("expected ExtractionFailed"),
    }
}

#[test]
fn parse_info_output_clean_exit_parses() {
    let json = "{\"title\":\"T\",\"formats\":[{\"height\":480,\"vcodec\":\"avc1\"}]}";
    let info = parse_info_output(true, json, String::new()).unwrap();
    assert_eq!(info.formats.len(), 1);
    assert_eq!(info.formats[0].resolution, "480p");
}
