use koala_desktop::player_util::{
    extract_video_id, format_published_tooltip, lang_display_name, parse_published_date,
    published_tooltip_at, watch_url,
};

#[test]
fn extract_video_id_standard() {
    assert_eq!(
        extract_video_id("https://www.youtube.com/watch?v=dQw4w9WgXcQ"),
        Some("dQw4w9WgXcQ".to_string())
    );
}

#[test]
fn extract_video_id_with_query_params() {
    assert_eq!(
        extract_video_id("https://www.youtube.com/watch?v=dQw4w9WgXcQ&t=42s"),
        Some("dQw4w9WgXcQ".to_string())
    );
}

#[test]
fn extract_video_id_with_fragment() {
    assert_eq!(
        extract_video_id("https://www.youtube.com/watch?v=dQw4w9WgXcQ#t=42"),
        Some("dQw4w9WgXcQ".to_string())
    );
}

#[test]
fn extract_video_id_rejects_short() {
    assert_eq!(extract_video_id("https://www.youtube.com/watch?v=short"), None);
}

#[test]
fn extract_video_id_rejects_channel_handle() {
    assert_eq!(extract_video_id("https://www.youtube.com/@amixem"), None);
}

#[test]
fn extract_video_id_rejects_non_watch_url() {
    assert_eq!(
        extract_video_id("https://www.youtube.com/channel/UCgvqvBoSHB1ctlyyhoHrGwQ"),
        None
    );
}

#[test]
fn format_published_tooltip_parses_valid_iso() {
    let out = format_published_tooltip("2019-02-12T15:00:00Z").expect("should parse");
    assert!(out.contains("février"));
    assert!(out.contains("2019"));
    assert!(out.contains("il y a") || out.contains("récente"));
}

#[test]
fn format_published_tooltip_starts_with_capital() {
    let out = format_published_tooltip("2019-02-12T00:00:00Z").expect("should parse");
    let first = out.chars().next().unwrap();
    assert!(first.is_uppercase(), "expected leading uppercase: {:?}", out);
}

#[test]
fn format_published_tooltip_rejects_garbage() {
    assert_eq!(format_published_tooltip(""), None);
    assert_eq!(format_published_tooltip("not-a-date"), None);
    assert_eq!(format_published_tooltip("2019-13-99T00:00:00Z"), None);
}

#[test]
fn lang_display_name_known() {
    assert_eq!(lang_display_name("fr"), "Français");
    assert_eq!(lang_display_name("en"), "English");
    assert_eq!(lang_display_name("ja"), "日本語");
}

#[test]
fn lang_display_name_unknown_passthrough() {
    assert_eq!(lang_display_name("xx"), "xx");
    assert_eq!(lang_display_name(""), "");
}

#[test]
fn extract_video_id_first_marker_segment_only() {
    // The id is what lies after the first marker, up to the next one.
    assert_eq!(
        extract_video_id("https://x/watch?v=abcdefghijkwatch?v=zzzzzzzzzzz"),
        Some("abcdefghijk".to_string())
    );
    assert_eq!(extract_video_id("watch?v=abcdefghijk"), Some("abcdefghijk".to_string()));
    assert_eq!(extract_video_id("watch?v=abcdefghijkl"), None);
}

#[test]
fn tooltip_exact_text_at_fixed_clock() {
    // 2025-06-01T00:00:00Z = 1748736000 s; 2019-02-12 was a Tuesday.
    let out = published_tooltip_at("2019-02-12T15:00:00Z", 1_748_736_000).unwrap();
    assert_eq!(out, "Mardi 12 février 2019 — il y a 6 ans");
}

#[test]
fn tooltip_recent_and_one_year() {
    let now: u64 = 1_748_736_000; // 2025
    assert_eq!(
        published_tooltip_at("2024-03-05T00:00:00Z", now).unwrap(),
        "Mardi 5 mars 2024 — il y a 1 an"
    );
    let out = published_tooltip_at("2025-05-20T00:00:00Z", now).unwrap();
    assert!(out.starts_with("Mardi 20 mai 2025 — "), "{}", out);
}

#[test]
fn parse_published_date_fields() {
    assert_eq!(parse_published_date("2019-02-12T15:00:00Z"), Some((2019, 2, 12)));
    assert_eq!(parse_published_date("2019-00-12T15:00:00Z"), None);
    assert_eq!(parse_published_date("2019-02"), None);
}

#[test]
fn watch_url_formats() {
    assert_eq!(watch_url("dQw4w9WgXcQ"), "https://www.youtube.com/watch?v=dQw4w9WgXcQ");
}

#[test]
fn lang_display_name_more_codes() {
    assert_eq!(lang_display_name("de"), "Deutsch");
    assert_eq!(lang_display_name("id"), "Indonesia");
    assert_eq!(lang_display_name("FR"), "FR");
}

#[test]
fn shader_list_keeps_glsl_files_sorted() {
    let e = |n: &str| (n.to_string(), format!("/s/{}", n));
    assert_eq!(
        koala_desktop::player_util::shader_list(vec![e("b.glsl"), e("notes.txt"), e(".glsl"), e("a.glsl"), e("c.glsl.bak")]),
        Some("/s/a.glsl:/s/b.glsl".to_string())
    );
    assert_eq!(koala_desktop::player_util::shader_list(vec![e("x.hook")]), None);
    assert_eq!(koala_desktop::player_util::shader_list(vec![]), None);
}

#[test]
fn dates_up_to_1970_always_get_a_tooltip() {
    let t = format_published_tooltip("1970-01-01T00:00:00Z").unwrap();
    assert!(t.starts_with("Jeudi 1 janvier 1970 — il y a "));
    assert!(format_published_tooltip("1969-12-31").is_some());
    assert!(format_published_tooltip("9999999-01-01").is_none());
}

#[test]
fn video_ids_count_characters() {
    assert_eq!(extract_video_id("https://www.youtube.com/watch?v=\u{e9}\u{e9}\u{e9}\u{e9}\u{e9}1"), None);
    let id = "\u{e9}".repeat(11);
    assert_eq!(extract_video_id(&format!("https://www.youtube.com/watch?v={}", id)), Some(id));
}

#[test]
fn query_and_fragment_keep_the_id() {
    let base = "https://www.youtube.com/watch?v=dQw4w9WgXcQ";
    assert_eq!(extract_video_id(&format!("{}&t=42s&list=x", base)), extract_video_id(base));
    assert_eq!(extract_video_id(&format!("{}#comments", base)), extract_video_id(base));
    let short = "https://www.youtube.com/watch?v=abc";
    assert_eq!(extract_video_id(&format!("{}&x=1", short)), None);
}

#[test]
fn day_out_of_month_is_malformed() {
    assert_eq!(format_published_tooltip("2019-02-99T00:00:00Z"), None);
    assert_eq!(format_published_tooltip("2019-02-29T00:00:00Z"), None);
    assert_eq!(format_published_tooltip("2019-04-31T00:00:00Z"), None);
    assert_eq!(format_published_tooltip("2019-02-00T00:00:00Z"), None);
    assert!(format_published_tooltip("2020-02-29T00:00:00Z").unwrap().starts_with("Samedi 29 février 2020"));
    assert!(format_published_tooltip("2000-02-29T00:00:00Z").is_some());
    assert!(format_published_tooltip("1900-02-29T00:00:00Z").is_none());
}

#[test]
fn future_dates_get_a_tooltip() {
    assert_eq!(
        published_tooltip_at("2099-01-01T00:00:00Z", 1_750_000_000),
        Some("Jeudi 1 janvier 2099 — récente".to_string())
    );
    assert!(format_published_tooltip("2099-01-01T00:00:00Z").is_some());
}

#[test]
fn only_the_date_head_matters() {
    assert_eq!(
        published_tooltip_at("2019-02-12T15:00:00Z", 1_750_000_000),
        published_tooltip_at("2019-02-12 anything", 1_750_000_000)
    );
}
