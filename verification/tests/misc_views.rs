use koala_desktop::auth::{AuthEvent, AuthMode, AuthRequest, AuthView};
use koala_desktop::backup_player::{
    active_cache_settings, is_playing, is_playing_different_from, parked_cache_settings, BackupLoad, BackupPlayer,
};
use koala_desktop::gif_picker::{image_kind, GifBody, GifFetch, GifPicker, GifResult, ImageKind, PreviewStep};
use koala_desktop::loading_overlay::LoadingOverlay;
use koala_desktop::player_widgets::fade_step;
use koala_desktop::settings_modal::{
    memory_hint, memory_hint_warns, memory_options, quality_hint_key, MemoryHint, Settings, SettingsEvent,
    SettingsModal,
};
use koala_desktop::remote_modal::RemoteModal;
use koala_desktop::tooltip::{fallback_metrics, TooltipOverlay, TooltipShow};

#[test]
fn auth_flow() {
    let mut a = AuthView::new();
    assert_eq!(a.mode_label_keys(), ("auth.login", "auth.switch_to_register"));
    match a.submit("e".to_string(), "p".to_string(), "u".to_string()) {
        Some(AuthRequest::Login { email, password }) => assert_eq!((email.as_str(), password.as_str()), ("e", "p")),
        _ => panic!(),
    }
    assert_eq!(a.submit_label_key(), "auth.loading");
    assert!(a.submit("e".to_string(), "p".to_string(), "u".to_string()).is_none());
    assert!(a.finish::<String>(Err("bad password".to_string())).is_none());
    assert_eq!(a.error, Some("bad password".to_string()));
    a.toggle_mode();
    assert_eq!(a.mode, AuthMode::Register);
    assert!(a.shows_username());
    assert_eq!(a.error, None);
    assert!(matches!(a.submit("e".into(), "p".into(), "u".into()), Some(AuthRequest::Register { .. })));
    assert!(matches!(a.finish(Ok("alice".to_string())), Some(AuthEvent::Authenticated(u)) if u == "alice"));
    assert_eq!(a.submit_label_key(), "auth.register_confirm");
}

#[test]
fn settings_hints() {
    let opts = memory_options();
    assert_eq!(opts[0], (0, "Off"));
    assert_eq!(opts[4], (5, "5"));
    assert_eq!(memory_hint(0), MemoryHint::Disabled);
    assert_eq!(memory_hint(2), MemoryHint::Recommended);
    assert_eq!(memory_hint(4), MemoryHint::Many { n: 4, mb: 300, cpu: 15 });
    assert_eq!(memory_hint(1), MemoryHint::Many { n: 1, mb: 0, cpu: 0 });
    assert!(memory_hint_warns(3));
    assert!(!memory_hint_warns(2));
    assert_eq!(quality_hint_key(2), "settings.quality.hint.720");
    assert_eq!(quality_hint_key(9), "");
    let mut m = SettingsModal::new(Settings { memory_capacity: 2, preferred_quality: 0 }, None);
    assert_eq!(m.select_memory(5), SettingsEvent::MemoryCapacity(5));
    assert_eq!(m.select_quality(3), SettingsEvent::QualityChanged(3));
    assert_eq!(m.settings, Settings { memory_capacity: 5, preferred_quality: 3 });
}

#[test]
fn gif_picker_flow() {
    let (mut g, f) = GifPicker::new();
    assert!(matches!(f, GifFetch::Trending));
    assert_eq!(g.body(), GifBody::Loading);
    assert!(matches!(g.set_search("   ".to_string()), GifFetch::Trending));
    match g.set_search("chat".to_string()) {
        GifFetch::Search(q) => assert_eq!(q, "chat"),
        _ => panic!(),
    }
    g.fetch_finished(None);
    assert_eq!(g.body(), GifBody::NoResults);
    g.fetch_finished(Some(vec![GifResult { gif_url: "g".into(), preview_url: "p".into() }]));
    assert_eq!(g.body(), GifBody::Grid);
    let mut in_flight = 5usize;
    assert_eq!(g.request_preview("p1", false, &mut in_flight), PreviewStep::Start);
    assert_eq!(in_flight, 6);
    assert_eq!(g.request_preview("p1", false, &mut in_flight), PreviewStep::Wait);
    assert_eq!(g.request_preview("p2", false, &mut in_flight), PreviewStep::Wait);
    assert_eq!(g.request_preview("p2", true, &mut in_flight), PreviewStep::Cached);
    g.preview_done("p1", &mut in_flight);
    assert_eq!(in_flight, 5);
    assert!(g.preview_pending.is_empty());
    assert_eq!(image_kind("https://x/a.gif"), ImageKind::Gif);
    assert_eq!(image_kind("https://x/a.png"), ImageKind::Png);
    assert_eq!(image_kind("https://x/a"), ImageKind::Jpeg);
}

#[test]
fn overlay_and_tooltip() {
    let mut o = LoadingOverlay::new();
    let ops = o.set_geometry(0, 0, 800, 600);
    assert!(ops.move_resize && !ops.raise && !ops.redraw);
    assert!(!o.set_geometry(0, 0, 800, 600).move_resize);
    let ops = o.show();
    assert!(ops.map && ops.redraw);
    assert!(!o.show().map);
    let ops = o.set_geometry(0, 0, 640, 480);
    assert!(ops.raise && ops.redraw);
    assert_eq!(o.label_origin(100, 12, 4), (270, 244));
    assert!(o.hide_window().unmap);
    assert!(!o.hide_window().unmap);
    assert_eq!(LoadingOverlay::new().label_origin(0, 0, 0), (200, 150));

    let mut t = TooltipOverlay::new();
    match t.show("Arte", 30, 11, 3) {
        TooltipShow::Draw { width, height, map, baseline } => {
            assert_eq!((width, height, map, baseline), (50, 26, true, 17));
        }
        _ => panic!(),
    }
    assert!(matches!(t.show("Arte", 30, 11, 3), TooltipShow::Move));
    match t.show("", 0, 0, 0) {
        TooltipShow::Draw { width, height, map, .. } => assert_eq!((width, height, map), (20, 18, false)),
        _ => panic!(),
    }
    assert!(t.hide_window());
    assert!(!t.hide_window());
    assert_eq!(fallback_metrics("abc"), (21, 11, 3));
}

#[test]
fn volume_fade_steps() {
    assert_eq!(fade_step(0, 100, 200, 0), (0, false));
    assert_eq!(fade_step(0, 100, 200, 50), (25, false));
    assert_eq!(fade_step(0, 100, 200, 199), (100, false));
    assert_eq!(fade_step(0, 100, 200, 200), (100, true));
    assert_eq!(fade_step(100, 0, 80, 40), (50, false));
    assert_eq!(fade_step(100, 0, 80, 1), (99, false));
    assert_eq!(fade_step(0, 100, 0, 0), (100, true));
}

#[test]
fn backup_player_state() {
    let mut b = BackupPlayer::new();
    assert_eq!(b.load("u1", true), BackupLoad::Reload { set_start: true });
    assert!(!b.poll_first_frame_ready(false));
    assert!(b.poll_first_frame_ready(true));
    assert!(b.poll_first_frame_ready(false));
    assert_eq!(b.load("u1", false), BackupLoad::Resync { seek: false });
    assert!(b.poll_first_frame_ready(false));
    assert_eq!(b.load("u2", false), BackupLoad::Reload { set_start: false });
    assert!(!b.poll_first_frame_ready(false));
    assert!(b.show());
    assert!(!b.show());
    b.move_offscreen();
    assert!(!b.is_visible());
    assert!(!b.hide_window());
    let mut c = BackupPlayer::new();
    c.load("https://www.youtube.com/watch?v=dQw4w9WgXcQ", false);
    assert_eq!(c.current_video_id(), Some("dQw4w9WgXcQ".to_string()));
    assert!(is_playing_different_from("new", "old", false, false, false));
    assert!(!is_playing_different_from("old", "old", false, false, false));
    assert!(!is_playing_different_from("", "old", false, false, false));
    assert!(!is_playing_different_from("new", "old", true, false, false));
    assert!(is_playing("https://g/videoplayback?id=abc", "abc", 51));
    assert!(!is_playing("https://g/videoplayback?id=abc", "abc", 50));
    assert_eq!(parked_cache_settings().max_bytes, 20 * 1024 * 1024);
    assert_eq!(active_cache_settings().cache_secs, 10);
}

#[test]
fn remote_modal_url() {
    let m = RemoteModal::new(Some("http://192.168.0.42:4502/?t=abc".to_string()));
    assert_eq!(m.url_display(), "http://192.168.0.42:4502/?t=abc");
    assert_eq!(RemoteModal::new(None).url_display(), "");
}

#[test]
fn volume_fade_takes_any_volumes_and_durations() {
    assert_eq!(fade_step(-1, 0, 2, 1), (-1, false));
    assert_eq!(fade_step(1, 0, 2, 1), (1, false));
    assert_eq!(fade_step(i64::MIN, i64::MAX, u64::MAX, u64::MAX / 2), (-1, false));
    assert_eq!(fade_step(i64::MAX, i64::MIN, u64::MAX, 12345678901234567), (9211026357953541240, false));
    assert_eq!(fade_step(i64::MIN, i64::MAX, u64::MAX, u64::MAX), (i64::MAX, true));
}
