use picast::custom::is_youtube_domain;
use picast::youtube::{extract_player_response, extract_youtube_video_id};

#[test]
fn test_extract_video_id_watch_url() {
    let id = extract_youtube_video_id("https://www.youtube.com/watch?v=dQw4w9WgXcQ");
    assert_eq!(id, Some("dQw4w9WgXcQ".to_owned()));
}

#[test]
fn test_extract_video_id_short_url() {
    let id = extract_youtube_video_id("https://youtu.be/dQw4w9WgXcQ");
    assert_eq!(id, Some("dQw4w9WgXcQ".to_owned()));
}

#[test]
fn test_extract_video_id_embed_url() {
    let id = extract_youtube_video_id("https://www.youtube.com/embed/dQw4w9WgXcQ");
    assert_eq!(id, Some("dQw4w9WgXcQ".to_owned()));
}

#[test]
fn test_extract_video_id_shorts_url() {
    let id = extract_youtube_video_id("https://www.youtube.com/shorts/dQw4w9WgXcQ");
    assert_eq!(id, Some("dQw4w9WgXcQ".to_owned()));
}

#[test]
fn test_extract_video_id_with_params() {
    let id = extract_youtube_video_id("https://www.youtube.com/watch?v=dQw4w9WgXcQ&t=42s&feature=share");
    assert_eq!(id, Some("dQw4w9WgXcQ".to_owned()));
}

#[test]
fn test_extract_video_id_invalid_url() {
    let id = extract_youtube_video_id("https://example.com/watch?v=abc");
    assert_eq!(id, None);
}

#[test]
fn test_is_youtube_domain() {
    assert!(is_youtube_domain("youtube.com"));
    assert!(is_youtube_domain("www.youtube.com"));
    assert!(is_youtube_domain("m.youtube.com"));
    assert!(is_youtube_domain("youtu.be"));
    assert!(is_youtube_domain("youtube-nocookie.com"));
    assert!(!is_youtube_domain("example.com"));
    assert!(!is_youtube_domain("vimeo.com"));
}

#[test]
fn test_extract_player_response_simple() {
    let html = r#"<html><script>var ytInitialPlayerResponse = {"videoDetails":{"title":"Test"}};</script></html>"#;
    let json = extract_player_response(html);
    assert!(json.is_some());
    let json = json.unwrap();
    assert!(json.contains("\"title\":\"Test\""));
}

#[test]
fn test_extract_player_response_with_nested_braces() {
    let html = r#"<script>var ytInitialPlayerResponse = {"a":{"b":1},"c":"}"};
    "#;
    let json = extract_player_response(html);
    assert!(json.is_some());
    let json = json.unwrap();
    // Should end at the correct closing brace, not the one inside the string
    assert!(json.ends_with('}'));
    assert!(json.starts_with('{'));
}

#[test]
fn test_extract_player_response_not_found() {
    let html = r#"<html><body>No player response here</body></html>"#;
    let json = extract_player_response(html);
    assert!(json.is_none());
}

#[test]
fn test_extract_player_response_with_escaped_quotes() {
    let html = r#"<script>var ytInitialPlayerResponse = {"title":"He said \"hello\""};</script>"#;
    let json = extract_player_response(html);
    assert!(json.is_some());
}
