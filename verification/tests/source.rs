use fardbot::source::{
    channel_address, handle_url, plan_for, track_of_address, track_of_video, validate_url,
    SourceError, SourcePlan, VideoDetails,
};

#[test]
fn validate_url_accepts_an_absolute_address() {
    assert_eq!(
        validate_url("https://www.youtube.com/watch?v=dQw4w9WgXcQ").as_deref(),
        Some("https://www.youtube.com/watch?v=dQw4w9WgXcQ")
    );
    assert_eq!(validate_url("ftp://files.example/a.ogg").as_deref(), Some("ftp://files.example/a.ogg"));
}

#[test]
fn validate_url_takes_the_angle_brackets_off() {
    assert_eq!(
        validate_url("<https://media.example/a.ogg>").as_deref(),
        Some("https://media.example/a.ogg")
    );
}

#[test]
fn validate_url_keeps_a_lone_bracket() {
    assert_eq!(validate_url("<https://media.example/a.ogg"), None);
    assert_eq!(validate_url("<"), None);
    assert_eq!(validate_url("<>"), None);
}

#[test]
fn validate_url_rejects_what_is_no_address() {
    assert_eq!(validate_url(""), None);
    assert_eq!(validate_url("dQw4w9WgXcQ"), None);
    assert_eq!(validate_url("www.youtube.com/watch?v=dQw4w9WgXcQ"), None);
    assert_eq!(validate_url("https://"), None);
}

#[test]
fn validate_url_counts_characters_not_bytes() {
    assert_eq!(
        validate_url("<https://media.example/é.ogg>").as_deref(),
        Some("https://media.example/é.ogg")
    );
}

#[test]
fn handle_url_plans_a_video_by_its_identifier() {
    match handle_url("https://www.youtube.com/watch?v=dQw4w9WgXcQ&t=42s") {
        Ok(SourcePlan::Video { id, url }) => {
            assert_eq!(id, "dQw4w9WgXcQ");
            assert_eq!(url, "https://www.youtube.com/watch?v=dQw4w9WgXcQ");
        }
        other => panic!("unexpected plan {other:?}"),
    }
    match handle_url("<https://www.youtube.com/watch?list=x&v=a_b-c_d-e_f>") {
        Ok(SourcePlan::Video { id, url }) => {
            assert_eq!(id, "a_b-c_d-e_f");
            assert_eq!(url, "https://www.youtube.com/watch?v=a_b-c_d-e_f");
        }
        other => panic!("unexpected plan {other:?}"),
    }
}

#[test]
fn handle_url_streams_directly_what_holds_no_video_identifier() {
    for raw in [
        "https://www.youtube.com/watch?v=short",
        "https://www.youtube.com/watch?v=dQw4w9WgXcQtoolong",
    ] {
        match handle_url(raw) {
            Ok(SourcePlan::Direct { url }) => assert_eq!(url, raw),
            other => panic!("unexpected plan {other:?}"),
        }
    }
}

#[test]
fn handle_url_rejects_other_sites_and_addresses_without_identifier() {
    for raw in [
        "https://media.example/watch?v=dQw4w9WgXcQ",
        "https://www.youtube.com/watch",
        "https://www.youtube.com/watch?v=",
        "http://www.youtube.com/watch?v=dQw4w9WgXcQ",
        "not an address",
        "",
    ] {
        assert!(matches!(handle_url(raw), Err(SourceError::InvalidUrl)), "{raw}");
    }
}

fn captured(text: &str) -> Option<Option<String>> {
    Some(Some(text.to_string()))
}

#[test]
fn plan_for_decides_by_site_and_capture() {
    let address = "https://www.youtube.com/watch?v=dQw4w9WgXcQ";
    assert!(matches!(plan_for(address, None), Err(SourceError::InvalidUrl)));
    assert!(matches!(
        plan_for("https://media.example/a", captured("dQw4w9WgXcQ")),
        Err(SourceError::InvalidUrl)
    ));
    match plan_for(address, captured("dQw4w9WgXcQ")) {
        Ok(SourcePlan::Video { id, url }) => {
            assert_eq!(id, "dQw4w9WgXcQ");
            assert_eq!(url, address);
        }
        other => panic!("unexpected plan {other:?}"),
    }
    for capture in ["", "dQw4w9WgXc", "dQw4w9WgXcQQ", "dQw4w9WgXc!", "dQw4w9Wg cQ", "dQw4w9WgXcé"] {
        match plan_for(address, captured(capture)) {
            Ok(SourcePlan::Direct { url }) => assert_eq!(url, address),
            other => panic!("unexpected plan {other:?} for {capture}"),
        }
    }
}

#[test]
fn plan_for_tells_a_match_without_identifier_from_no_match() {
    let address = "https://www.youtube.com/watch?v=dQw4w9WgXcQ";
    assert!(matches!(plan_for(address, Some(None)), Err(SourceError::MissingVideoId)));
    assert!(matches!(plan_for(address, None), Err(SourceError::InvalidUrl)));
    assert!(matches!(
        plan_for("https://media.example/a", Some(None)),
        Err(SourceError::InvalidUrl)
    ));
}

#[test]
fn plan_for_finds_the_site_anywhere_in_the_address() {
    for address in [
        "https://www.youtube.com",
        "https://www.youtube.com/watch",
        "https://mirror.example/?to=https://www.youtube.com/watch",
        "https://mirror.example/é/https://www.youtube.com",
        "xhttps://www.youtube.com",
    ] {
        assert!(
            matches!(plan_for(address, captured("dQw4w9WgXcQ")), Ok(SourcePlan::Video { .. })),
            "{address}"
        );
    }
    for address in [
        "",
        "https://www.youtube.co",
        "ttps://www.youtube.com",
        "https://www.youtube,com",
        "https://www.youtube.cohttps://www.youtube.co",
        "HTTPS://WWW.YOUTUBE.COM",
    ] {
        assert!(
            matches!(plan_for(address, captured("dQw4w9WgXcQ")), Err(SourceError::InvalidUrl)),
            "{address}"
        );
    }
}

fn details(pictures: usize) -> VideoDetails {
    VideoDetails {
        video_id: "dQw4w9WgXcQ".to_string(),
        title: "Never Gonna Give You Up".to_string(),
        author: "Rick Astley".to_string(),
        thumbnails: (0..pictures).map(|i| format!("https://img.example/{i}.jpg")).collect(),
    }
}

#[test]
fn track_of_video_shows_the_fourth_picture() {
    let track = track_of_video(&details(5));
    assert_eq!(track.locator, "https://www.youtube.com/watch?v=dQw4w9WgXcQ");
    assert_eq!(track.url, "https://www.youtube.com/watch?v=dQw4w9WgXcQ");
    assert_eq!(track.title, "Never Gonna Give You Up");
    assert_eq!(track.author, "Rick Astley");
    assert_eq!(track.thumbnail.as_deref(), Some("https://img.example/3.jpg"));
    assert_eq!(track_of_video(&details(4)).thumbnail.as_deref(), Some("https://img.example/3.jpg"));
}

#[test]
fn track_of_address_knows_the_address_only() {
    let track = track_of_address("https://media.example/a.ogg");
    assert_eq!(track.locator, "https://media.example/a.ogg");
    assert_eq!(track.url, "https://media.example/a.ogg");
    assert_eq!(track.title, "https://media.example/a.ogg");
    assert_eq!(track.author, "");
    assert_eq!(track.thumbnail, None);
}

#[test]
fn channel_address_puts_the_identifier_behind_the_prefix() {
    assert_eq!(
        channel_address("UCuAXFkgsw1L7xaCfnd5JJOw"),
        "https://www.youtube.com/channel/UCuAXFkgsw1L7xaCfnd5JJOw"
    );
    assert_eq!(channel_address(""), "https://www.youtube.com/channel/");
}
