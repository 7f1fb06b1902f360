use linkpreview::error::AppError;
use linkpreview::metadata::{
    collate_og_tags, extract_head, extract_metadata, extract_metadata_cardyb, get_open_graph_tags,
    is_valid_url, parse_candidate,
};
use linkpreview::models::{CardyBResponse, MetadataResponseType, OpenGraphResponse, TagType};

const BASE_URL: &str = "https://cardyb.bsky.app";

#[test]
fn test_get_open_graph_tags() {
    let header = r#"<html>
<head>
    <meta charset="utf-8">
    <meta name="viewport" content="width=device-width, initial-scale=1">
    <meta name="description" content="The Beatles - Hey Jude">
    <meta property="og:title" content="The Beatles - Hey Jude">
    <meta property="og:type" content="music.song">
    <meta property="og:url" content="https://music.apple.com/us/album/hey-jude/1435546686">
    <meta property="og:image" content="https://is3-ssl.mzstatic.com/image/thumb/Music128/v4/c8/b8/f5/c8b8f5d0-b5a6-c5e1-a5f9-f7e8f2e6f0e2/88229964-e0b9-4c3d-8b6c-d2f8c9f3a2d8.jpg/170x170bb.jpg">
    <meta property="og:audio" content="https://is3-ssl.mzstatic.com/audio/v4/c8/b8/f5/c8b8f5d0-b5a6-c5e1-a5f9-f7e8f2e6f0e2/mzaf_1435546686.mp3/mzaf_1435546686.mp3">
    <meta property="og:description" content="The Beatles - Hey Jude">
    <meta property="og:site_name" content="Apple Music">
    <meta property="og:video" content="https://is3-ssl.mzstatic.com/video/thumb/Music128/v4/c8/b8/f5/c8b8f5d0-b5a6-c5e1-a5f9-f7e8f2e6f0e2/mzaf_1435546686.mp4/mzaf_1435546686.mp4">
        </head>
        <body>
        </body>
        </html>"#;
    let tags = get_open_graph_tags(header);
    assert_eq!(tags.len(), 10);

    let collated = collate_og_tags(tags, BASE_URL);
    assert_eq!(collated.title, "The Beatles - Hey Jude");
    assert_eq!(
        collated.url,
        "https://music.apple.com/us/album/hey-jude/1435546686"
    );
    assert_eq!(collated.image, Some("https://cardyb.bsky.app/v1/image?url=https%3A%2F%2Fis3-ssl.mzstatic.com%2Fimage%2Fthumb%2FMusic128%2Fv4%2Fc8%2Fb8%2Ff5%2Fc8b8f5d0-b5a6-c5e1-a5f9-f7e8f2e6f0e2%2F88229964-e0b9-4c3d-8b6c-d2f8c9f3a2d8.jpg%2F170x170bb.jpg".to_string()));

    let collated: CardyBResponse = CardyBResponse::from(collated);
    assert_eq!(collated.likely_type, "music.song");
    assert_eq!(
        collated.url,
        "https://music.apple.com/us/album/hey-jude/1435546686"
    );
    assert_eq!(collated.title, "The Beatles - Hey Jude");
}

#[test]
fn parser_yields_both_candidates() {
    let first = parse_candidate(r#"<meta name="x" content="y">"#).expect("first tag parses");
    match &first.tag_type {
        TagType::Name(key) => assert_eq!(key, "x"),
        TagType::Property(_) => panic!("expected a Name tag"),
    }
    assert_eq!(first.content, "y");

    let second =
        parse_candidate(r#"<meta name="og:title" content="T">"#).expect("second tag parses");
    match &second.tag_type {
        TagType::Name(key) => assert_eq!(key, "og:title"),
        TagType::Property(_) => panic!("expected a Name tag"),
    }
    assert_eq!(second.content, "T");
}

#[test]
fn parser_kind_and_link_prefix() {
    let prop = parse_candidate(r#"<meta property="og:title" content="T">"#).unwrap();
    match &prop.tag_type {
        TagType::Property(key) => assert_eq!(key, "og:title"),
        TagType::Name(_) => panic!("expected a Property tag"),
    }

    let link = parse_candidate(r#"<link rel="name=icon" href="/favicon.ico">"#).unwrap();
    match &link.tag_type {
        TagType::Name(key) => assert_eq!(key, "link:name=icon"),
        TagType::Property(_) => panic!("expected a Name tag"),
    }
    assert_eq!(link.content, "/favicon.ico");
}

#[test]
fn parser_drops_non_matching_candidates() {
    assert!(parse_candidate(r#"<meta charset="utf-8">"#).is_none());
    assert!(parse_candidate(r#"<meta name="x" badattr="y">"#).is_none());
    assert!(parse_candidate(r#"<div name="x" content="y">"#).is_none());
    assert!(parse_candidate(r#"<meta name="x content="y">"#).is_none());
    assert!(parse_candidate(r#"<meta name="unterminated"#).is_none());
}

#[test]
fn tokenizer_discards_trailing_segment() {
    // The scanner emits a candidate only on reaching a `<` delimiter, so the
    // final accumulated tag, with no `<` after it, is discarded.
    let tags = get_open_graph_tags(r#"<meta name="x" content="y"><meta name="og:title" content="T">"#);
    assert_eq!(tags.len(), 1);
    match &tags[0].tag_type {
        TagType::Name(key) => assert_eq!(key, "x"),
        TagType::Property(_) => panic!("expected a Name tag"),
    }
    assert_eq!(tags[0].content, "y");
}

#[test]
fn head_extraction_takes_second_segment() {
    let doc = "<html><head><meta a></head><body></body></html>";
    let head = extract_head(doc).expect("head present");
    assert_eq!(head, "<meta a>");

    // Without any `head>` marker the heuristic finds no head region.
    assert!(extract_head("<html><body>no head here</body></html>").is_none());
    // One marker still yields a (empty) head region: everything from the
    // final `</` on is discarded, and here that is the whole remainder.
    assert_eq!(extract_head("<html><head>unclosed"), Some(String::new()));
}

#[test]
fn url_shape_check() {
    assert!(is_valid_url("https://example.com"));
    assert!(is_valid_url("example.com/path?q=1"));
    assert!(is_valid_url("http://www.music.apple.com/us/album"));
    assert!(!is_valid_url("ab"));
    assert!(!is_valid_url("no dots here"));
    assert!(!is_valid_url(""));
}

#[test]
fn extract_rejects_bad_url() {
    let r = extract_metadata("not a url", "<head><meta></head>", BASE_URL);
    assert_eq!(r.unwrap_err(), AppError::InvalidUrl);
}

#[test]
fn extract_flags_missing_head_as_fetch_failure() {
    let r = extract_metadata("https://example.com", "<html><body></body></html>", BASE_URL);
    assert_eq!(r.unwrap_err(), AppError::FetchFailed);
}

#[test]
fn extract_happy_path() {
    let doc = r#"<html><head>
    <meta property="og:title" content="A Title">
    <meta property="og:url" content="https://example.com/page">
    <title>t</title>
    </head><body></body></html>"#;
    let r = extract_metadata("https://example.com/page", doc, BASE_URL).unwrap();
    let MetadataResponseType::OpenGraph(og) = r.metadata;
    assert_eq!(og.title, "A Title");
    assert_eq!(og.url, "https://example.com/page");
    assert_eq!(og.image, None);
}

#[test]
fn youtube_override_forces_description() {
    let doc = r#"<html><head>
    <meta name="name" content="Some Channel">
    <meta property="og:description" content="original description">
    <meta property="og:url" content="https://www.youtube.com/watch?v=XYZ">
    <meta property="og:title" content="A Video">
    <title>t</title>
    </head><body></body></html>"#;
    let r = extract_metadata("https://www.youtube.com/watch?v=XYZ", doc, BASE_URL).unwrap();
    let MetadataResponseType::OpenGraph(og) = r.metadata;
    assert_eq!(og.description, Some("Youtube video by Some Channel".to_string()));
}

#[test]
fn youtube_shorts_description() {
    let doc = r#"<html><head>
    <meta name="name" content="Shorts Channel">
    <meta property="og:url" content="https://youtube.com/shorts/abc">
    <title>t</title>
    </head><body></body></html>"#;
    let r = extract_metadata("https://youtube.com/shorts/abc", doc, BASE_URL).unwrap();
    let MetadataResponseType::OpenGraph(og) = r.metadata;
    assert_eq!(og.description, Some("Youtube short by Shorts Channel".to_string()));
}

#[test]
fn later_tags_override_earlier_ones() {
    let tags = vec![
        linkpreview::models::MetaTag {
            tag_type: TagType::Property("og:title".to_string()),
            content: "First".to_string(),
            raw: String::new(),
        },
        linkpreview::models::MetaTag {
            tag_type: TagType::Name("twitter:title".to_string()),
            content: "Second".to_string(),
            raw: String::new(),
        },
    ];
    let og = collate_og_tags(tags, BASE_URL);
    assert_eq!(og.title, "Second");
}

#[test]
fn legacy_error_shape_on_empty_url() {
    let og = OpenGraphResponse {
        title: "A Title".to_string(),
        og_type: Some("website".to_string()),
        url: String::new(),
        image: Some("https://example.com/i.png".to_string()),
        audio: None,
        description: Some("text".to_string()),
        site_name: Some("site".to_string()),
        video: None,
    };
    let legacy = CardyBResponse::from(og);
    assert_eq!(legacy.error, "Unable to generate link preview");
    assert_eq!(legacy.likely_type, "");
    assert_eq!(legacy.url, "");
    assert_eq!(legacy.title, "");
    assert_eq!(legacy.description, "");
    assert_eq!(legacy.image, "");
}

#[test]
fn legacy_defaults_on_success() {
    let mut og = OpenGraphResponse::default();
    og.title = "T".to_string();
    og.url = "https://example.com".to_string();
    let legacy = CardyBResponse::from(og);
    assert_eq!(legacy.error, "");
    assert_eq!(legacy.likely_type, "website");
    assert_eq!(legacy.description, "");
    assert_eq!(legacy.image, "");
    assert_eq!(legacy.title, "T");
    assert_eq!(legacy.url, "https://example.com");
}

#[test]
fn cardyb_pipeline_end_to_end() {
    let doc = r#"<html><head>
    <meta property="og:title" content="A Title">
    <meta property="og:type" content="article">
    <meta property="og:url" content="https://example.com/page">
    <title>t</title>
    </head><body></body></html>"#;
    let r = extract_metadata_cardyb("https://example.com/page", doc, BASE_URL).unwrap();
    assert_eq!(r.error, "");
    assert_eq!(r.likely_type, "article");
    assert_eq!(r.title, "A Title");
    assert_eq!(r.url, "https://example.com/page");
}

#[test]
fn error_status_mapping() {
    assert_eq!(
        AppError::InvalidUrl.status_and_message(),
        (400, "Invalid URL".to_string())
    );
    assert_eq!(
        AppError::FetchFailed.status_and_message(),
        (400, "Failed to fetch URL".to_string())
    );
    assert_eq!(
        AppError::ImageProcessingError.status_and_message(),
        (500, "Failed to process image".to_string())
    );
}

#[test]
fn image_proxy_headers() {
    let headers = linkpreview::img::create_image_headers();
    assert_eq!(headers.len(), 2);
    assert_eq!(headers[0].0, "content-type");
    assert_eq!(headers[0].1, "image/webp");
    assert_eq!(headers[1].0, "cache-control");
    assert_eq!(headers[1].1, "public, max-age=31536000");
}

#[test]
fn twitter_aliases_apply_to_property_tags() {
    let tags = vec![
        linkpreview::models::MetaTag {
            tag_type: TagType::Property("twitter:title".to_string()),
            content: "T".to_string(),
            raw: String::new(),
        },
        linkpreview::models::MetaTag {
            tag_type: TagType::Property("twitter:description".to_string()),
            content: "D".to_string(),
            raw: String::new(),
        },
    ];
    let og = collate_og_tags(tags, BASE_URL);
    assert_eq!(og.title, "T");
    assert_eq!(og.description, Some("D".to_string()));
}

#[test]
fn parser_accepts_unicode_whitespace() {
    // U+00A0 (no-break space) separates the element name and the attributes.
    let tag = parse_candidate("<meta\u{a0}name=\"x\"\u{a0}content=\"y\">").expect("parses");
    match &tag.tag_type {
        TagType::Name(key) => assert_eq!(key, "x"),
        TagType::Property(_) => panic!("expected a Name tag"),
    }
    assert_eq!(tag.content, "y");
}
