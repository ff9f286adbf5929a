use koala_desktop::player::{
    poll_interval_ms,
    LayoutMetrics, PlaybackState, PlayerView, PollInput, SwitchPlan, TvStateInfo,
};
use koala_desktop::player_tracks::MenuAction;
use koala_desktop::popup_menu::{MenuEvent, MenuKind};

fn input(now_ms: u64) -> PollInput {
    PollInput {
        now_ms,
        saw_video_reconfig: false,
        backup_ready: false,
        main_path: String::new(),
        main_core_idle: false,
        main_stalled: false,
        main_seeking: false,
        backup_playing_different: false,
        main_pos_ms: 0,
        backup_pos_ms: 0,
    }
}

fn state(video: &str, channel: &str) -> TvStateInfo {
    TvStateInfo {
        video_id: video.to_string(),
        channel_id: channel.to_string(),
        title: format!("title {}", video),
        published_at: None,
        next_video_id: None,
        resolved_url: None,
        resolved_url_lq: None,
        resolved_url_fresh: false,
    }
}

#[test]
fn swap_down_after_two_seconds_of_stall() {
    let mut s = PlaybackState::new();
    let mut i = input(1000);
    i.main_stalled = true;
    let a = s.poll(&i, true);
    assert!(!a.swap_down);
    assert_eq!(s.cache_stall_since, Some(1000));
    assert!(a.critical);
    let mut i2 = input(2999);
    i2.main_stalled = true;
    assert!(!s.poll(&i2, true).swap_down);
    let mut i3 = input(3000);
    i3.main_stalled = true;
    i3.main_pos_ms = 10_000;
    i3.backup_pos_ms = 9_000;
    let a3 = s.poll(&i3, true);
    assert!(a3.swap_down);
    assert_eq!(a3.backup_seek_ms, Some(10_000));
    assert_eq!(a3.drift_ms, 1000);
    assert!(s.using_backup);
    assert_eq!(s.backup_since, Some(3000));
    assert_eq!(s.cache_stall_since, None);
}

#[test]
fn stall_interrupted_resets_timer() {
    let mut s = PlaybackState::new();
    let mut i = input(0);
    i.main_stalled = true;
    s.poll(&i, true);
    s.poll(&input(1500), true);
    assert_eq!(s.cache_stall_since, None);
    let mut j = input(2500);
    j.main_stalled = true;
    assert!(!s.poll(&j, true).swap_down);
    assert_eq!(s.cache_stall_since, Some(2500));
}

#[test]
fn no_swap_without_backup() {
    let mut s = PlaybackState::new();
    let mut i = input(0);
    i.main_stalled = true;
    s.poll(&i, false);
    let mut j = input(10_000);
    j.main_stalled = true;
    assert!(!s.poll(&j, false).swap_down);
    assert!(!s.using_backup);
}

#[test]
fn swap_up_after_three_seconds_when_main_ready() {
    let mut s = PlaybackState::new();
    s.using_backup = true;
    s.backup_since = Some(1000);
    s.main_first_frame_ready = true;
    assert!(!s.poll(&input(3999), true).swap_up);
    let mut i = input(4000);
    i.backup_pos_ms = 20_000;
    i.main_pos_ms = 19_500;
    let a = s.poll(&i, true);
    assert!(a.swap_up);
    assert_eq!(a.main_seek_ms, Some(20_000));
    assert_eq!(a.backup_elapsed_ms, 3000);
    assert!(!s.using_backup);
    assert_eq!(s.backup_since, None);
}

#[test]
fn swap_up_waits_for_first_frame_and_small_drift_no_seek() {
    let mut s = PlaybackState::new();
    s.using_backup = true;
    s.backup_since = Some(0);
    assert!(!s.poll(&input(10_000), true).swap_up);
    let mut i = input(10_016);
    i.saw_video_reconfig = true;
    i.backup_pos_ms = 20_000;
    i.main_pos_ms = 19_800;
    let a = s.poll(&i, true);
    assert!(a.swap_up);
    assert_eq!(a.main_seek_ms, None);
    assert!(!a.fade_in_main);
}

#[test]
fn first_frame_fades_in_when_main_visible() {
    let mut s = PlaybackState::new();
    let mut i = input(5);
    i.saw_video_reconfig = true;
    assert!(s.poll(&i, true).fade_in_main);
    assert!(s.main_first_frame_ready);
    assert!(!s.poll(&i, true).fade_in_main);
}

#[test]
fn pending_reveal_shows_backup() {
    let mut s = PlaybackState::new();
    s.pending_backup_reveal = true;
    let a = s.poll(&input(100), true);
    assert!(!a.reveal_backup);
    assert!(a.critical);
    let mut i = input(200);
    i.backup_ready = true;
    let a = s.poll(&i, true);
    assert!(a.reveal_backup);
    assert!(a.notify);
    assert!(s.using_backup);
    assert_eq!(s.backup_since, Some(200));
    assert!(!s.pending_backup_reveal);
}

#[test]
fn auto_advance_reported_once() {
    let mut s = PlaybackState::new();
    s.current_video_id = Some("aaaaaaaaaaa".to_string());
    s.queued_next_id = Some("bbbbbbbbbbb".to_string());
    s.using_backup = true;
    let mut i = input(0);
    i.main_path = "https://www.youtube.com/watch?v=bbbbbbbbbbb".to_string();
    let a = s.poll(&i, true);
    assert_eq!(a.auto_advanced.map(|e| e.new_video_id), Some("bbbbbbbbbbb".to_string()));
    assert_eq!(s.current_video_id, Some("bbbbbbbbbbb".to_string()));
    assert_eq!(s.queued_next_id, None);
    assert!(!s.using_backup);
    assert!(s.poll(&i, true).auto_advanced.is_none());
}

#[test]
fn same_video_path_is_no_advance() {
    let mut s = PlaybackState::new();
    s.current_video_id = Some("aaaaaaaaaaa".to_string());
    let mut i = input(0);
    i.main_path = "https://www.youtube.com/watch?v=aaaaaaaaaaa".to_string();
    assert!(s.poll(&i, true).auto_advanced.is_none());
    assert_eq!(s.last_observed_video_id, Some("aaaaaaaaaaa".to_string()));
}

#[test]
fn loading_screen_lifts_when_main_plays_new_path() {
    let mut s = PlaybackState::new();
    s.loading_for_video = Some("v".to_string());
    s.loading_until = Some(99);
    s.loading_pre_path = Some("old".to_string());
    let mut i = input(0);
    i.main_path = "old".to_string();
    assert!(!s.poll(&i, true).notify);
    assert!(s.loading_for_video.is_some());
    i.main_path = "new".to_string();
    i.main_core_idle = true;
    s.poll(&i, true);
    assert!(s.loading_for_video.is_some());
    i.main_core_idle = false;
    let a = s.poll(&i, true);
    assert!(a.notify);
    assert_eq!(s.loading_for_video, None);
    assert_eq!(s.loading_until, None);
    assert_eq!(s.loading_pre_path, None);
}

#[test]
fn loading_screen_lifts_on_backup() {
    let mut s = PlaybackState::new();
    s.loading_for_video = Some("v".to_string());
    let mut i = input(0);
    i.backup_playing_different = true;
    assert!(!{
        let mut t = PlaybackState::new();
        t.loading_for_video = Some("v".to_string());
        t.poll(&i, false);
        t.loading_for_video.is_none()
    });
    s.poll(&i, true);
    assert_eq!(s.loading_for_video, None);
}

#[test]
fn channel_switch_through_memory_cache() {
    let mut p: PlayerView<u32> = PlayerView::new(Some(1));
    // First state: records the channel only.
    assert_eq!(p.channel_switch_plan("a"), SwitchPlan::Keep);
    let (took, plan) = p.load_state(&state("aaaaaaaaaaa", "a"), 0, None, None, None);
    assert!(!took);
    assert!(plan.video_changed);
    assert!(plan.load_backup);
    assert_eq!(plan.main_load, Some("https://www.youtube.com/watch?v=aaaaaaaaaaa".to_string()));
    assert!(plan.main_ytdl);
    assert_eq!(p.playback.current_channel_id, Some("a".to_string()));
    // Switch to b: a fresh backup is needed.
    assert_eq!(p.channel_switch_plan("b"), SwitchPlan::Fresh);
    let (took, _) = p.load_state(&state("bbbbbbbbbbb", "b"), 10, Some(2), None, None);
    assert!(!took);
    assert_eq!(p.backup, Some(2));
    assert_eq!(p.memory_cache.channel_ids(), vec!["a".to_string()]);
    assert_eq!(p.memory_changed().0, vec!["a".to_string()]);
    // Back to a: its backup comes from the cache.
    assert_eq!(p.channel_switch_plan("a"), SwitchPlan::FromCache);
    let (took, plan) = p.load_state(&state("aaaaaaaaaaa", "a"), 20, None, None, None);
    assert!(took);
    assert!(!plan.load_backup);
    assert_eq!(p.backup, Some(1));
    assert!(p.playback.using_backup);
    assert_eq!(p.playback.backup_since, Some(20));
    assert_eq!(p.memory_cache.channel_ids(), vec!["b".to_string()]);
}

#[test]
fn same_video_is_not_reloaded_and_prefetch_once() {
    let mut p: PlayerView<u32> = PlayerView::new(None);
    let mut st = state("aaaaaaaaaaa", "a");
    st.next_video_id = Some("ccccccccccc".to_string());
    st.resolved_url = Some("https://cdn/x".to_string());
    st.resolved_url_fresh = true;
    let (_, plan) = p.load_state(&st, 0, None, Some("https://cdn/old".to_string()), None);
    assert_eq!(plan.main_load, Some("https://cdn/x".to_string()));
    assert!(!plan.main_ytdl);
    assert!(!plan.load_backup);
    assert_eq!(plan.prefetch_url, Some("https://www.youtube.com/watch?v=ccccccccccc".to_string()));
    let (_, plan2) = p.load_state(&st, 5, None, None, None);
    assert!(!plan2.video_changed);
    assert_eq!(plan2.main_load, None);
    assert_eq!(plan2.prefetch_url, None);
}

#[test]
fn main_path_holding_video_skips_reload() {
    let mut p: PlayerView<u32> = PlayerView::new(None);
    let st = state("aaaaaaaaaaa", "a");
    let (_, plan) = p.load_state(&st, 0, None, Some("https://www.youtube.com/watch?v=aaaaaaaaaaa".to_string()), None);
    assert!(plan.video_changed);
    assert_eq!(plan.main_load, None);
}

#[test]
fn loading_screen_rearmed_after_stop() {
    let mut p: PlayerView<u32> = PlayerView::new(Some(7));
    p.stop_playback(1000);
    assert_eq!(p.playback.loading_until, Some(1000 + 3_600_000));
    assert_eq!(p.playback.current_channel_id, None);
    let (_, plan) = p.load_state(&state("aaaaaaaaaaa", "a"), 2000, None, Some("p0".to_string()), Some("b0".to_string()));
    assert!(plan.video_changed);
    assert_eq!(p.playback.loading_until, Some(12_000));
    assert_eq!(p.playback.loading_for_video, Some("aaaaaaaaaaa".to_string()));
    assert_eq!(p.playback.loading_pre_path, Some("p0".to_string()));
    assert_eq!(p.playback.loading_pre_path_backup, Some("b0".to_string()));
}

#[test]
fn memory_capacity_setting_keeps_one_fewer() {
    let mut p: PlayerView<u32> = PlayerView::new(Some(1));
    p.set_memory_capacity(0);
    assert_eq!(p.memory_cache.capacity(), 0);
    p.set_memory_capacity(3);
    assert_eq!(p.memory_cache.capacity(), 2);
    assert!(p.should_preload("x"));
    p.park_preloaded("x".to_string(), 9);
    assert!(!p.should_preload("x"));
    p.purge_memory_cache();
    assert_eq!(p.memory_cache.len(), 0);
    p.set_memory_capacity(1);
    assert!(!p.should_preload("y"));
}

#[test]
fn quality_switch_shows_backup() {
    let mut p: PlayerView<u32> = PlayerView::new(Some(1));
    assert!(p.set_quality(5, 0, 0).is_none());
    let (fmt, show, seek) = p.set_quality(2, 100, 30_000).unwrap();
    assert!(fmt.starts_with("bestvideo[height<=720]"));
    assert!(show);
    assert_eq!(seek, Some(30_000));
    assert_eq!(p.controls.quality_idx, 2);
    assert!(p.playback.using_backup);
    let (_, _, seek) = p.set_quality(0, 200, 400).unwrap();
    assert_eq!(seek, None);
}

#[test]
fn captions_menu_toggle_and_pick() {
    let mut p: PlayerView<u32> = PlayerView::new(None);
    let subs = vec![(3i64, "English".to_string()), (5i64, "Français".to_string())];
    let audio: Vec<(i64, String)> = vec![(1, "en".to_string())];
    let out = p.handle_menu_event(MenuEvent::Selected { kind: MenuKind::Captions, index: 3 }, &subs, &audio, 0, 0);
    assert_eq!(out.action, MenuAction::ToggleMoreLangs);
    assert!(out.reopen_captions);
    assert!(p.controls.show_all_sub_langs);
    let out = p.handle_menu_event(MenuEvent::Selected { kind: MenuKind::Captions, index: 2 }, &subs, &audio, 0, 0);
    assert_eq!(out.action, MenuAction::SetSubTrack(Some(5)));
    assert!(p.controls.captions_on);
    assert_eq!(p.controls.sub_label, "Français");
    assert!(!p.controls.show_all_sub_langs);
    let out = p.handle_menu_event(MenuEvent::Selected { kind: MenuKind::Captions, index: 0 }, &subs, &audio, 0, 0);
    assert_eq!(out.action, MenuAction::SetSubTrack(None));
    assert_eq!(p.controls.sub_label, "Off");
    let out = p.handle_menu_event(MenuEvent::Selected { kind: MenuKind::Audio, index: 0 }, &subs, &audio, 0, 0);
    assert_eq!(out.action, MenuAction::SetAudioTrack(1));
    assert_eq!(p.controls.audio_label, "en");
    let out = p.handle_menu_event(MenuEvent::Selected { kind: MenuKind::Audio, index: 4 }, &subs, &audio, 0, 0);
    assert_eq!(out.action, MenuAction::Nothing);
}

#[test]
fn toggle_popup_closes_same_menu() {
    let mut p: PlayerView<u32> = PlayerView::new(None);
    assert!(p.controls.toggle_popup(MenuKind::Audio, false, MenuKind::Captions));
    assert!(p.controls.audio_open);
    assert!(!p.controls.toggle_popup(MenuKind::Audio, true, MenuKind::Audio));
    assert!(!p.controls.audio_open);
    assert!(p.controls.toggle_popup(MenuKind::Quality, true, MenuKind::Audio));
    assert!(p.controls.quality_open);
}

#[test]
fn volume_controls() {
    let mut p: PlayerView<u32> = PlayerView::new(None);
    assert_eq!(p.controls.toggle_mute(), 0);
    assert_eq!(p.controls.toggle_mute(), 100);
    assert_eq!(p.controls.set_volume(140), 100);
    assert_eq!(p.controls.set_volume(-3), 0);
    assert_eq!(p.controls.set_volume(42), 42);
}

#[test]
fn layout_of_the_video_area() {
    let mut p: PlayerView<u32> = PlayerView::new(Some(1));
    let m = LayoutMetrics { sidebar_w: 56, chat_w: 340, topbar_h: 48, control_bar_h: 52, infobar_h: 44 };
    let r = p.render_layout(1280, 800, &m);
    assert_eq!(r.area, (56, 48, 884, 656));
    assert!(r.geometry_changed && r.size_changed);
    assert_eq!(p.layout.control_bar_y, 48 + 656);
    assert_eq!(p.layout.control_bar_right, 56 + 884);
    let r = p.render_layout(1280, 800, &m);
    assert!(!r.geometry_changed);
    p.set_chat_open(false);
    let r = p.render_layout(1280, 800, &m);
    assert_eq!(r.area, (56, 48, 1224, 656));
    p.hide_video();
    let r = p.render_layout(1280, 800, &m);
    assert_eq!(r.area, (-10000, -10000, 1224, 656));
    // Hiding forgets the last geometry, so the next one counts as a resize.
    assert!(r.geometry_changed && r.size_changed);
    let r = p.render_layout(1280, 700, &m);
    assert_eq!(r.area, (-10000, -10000, 1224, 556));
    let r = p.render_layout(1280, 700, &m);
    assert!(!r.geometry_changed && !r.size_changed);
    let r = p.render_layout(150, 100, &m);
    assert_eq!((r.area.2, r.area.3), (100, 100));
}

#[test]
fn start_switch_records_paths() {
    let mut p: PlayerView<u32> = PlayerView::new(None);
    p.start_switch(77, Some("m".to_string()), None);
    assert_eq!(p.playback.switch_arm_at, Some(77));
    assert_eq!(p.playback.loading_pre_path, Some("m".to_string()));
    let m = LayoutMetrics { sidebar_w: 0, chat_w: 0, topbar_h: 0, control_bar_h: 0, infobar_h: 0 };
    p.render_layout(500, 500, &m);
    assert_eq!(p.playback.switch_arm_at, None);
}

#[test]
fn preload_geometry_is_offscreen() {
    let mut p: PlayerView<u32> = PlayerView::new(None);
    assert_eq!(p.preload_geometry(), None);
    p.layout.apply_geometry(3, 4, 0, 600);
    assert_eq!(p.preload_geometry(), Some((-10000, -10000, 1, 600)));
}

#[test]
fn repeating_a_state_changes_nothing() {
    let mut p: PlayerView<u32> = PlayerView::new(Some(1));
    p.load_state(&state("aaaaaaaaaaa", "a"), 0, None, None, None);
    let mut st = state("bbbbbbbbbbb", "b");
    st.next_video_id = Some("ccccccccccc".to_string());
    p.load_state(&st, 10, Some(2), None, None);
    let ids = p.memory_cache.channel_ids();
    let queued = p.playback.queued_next_id.clone();
    let (took, plan) = p.load_state(&st, 20, None, None, None);
    assert!(!took);
    assert!(!plan.video_changed && !plan.load_backup);
    assert_eq!((plan.main_load, plan.prefetch_url), (None, None));
    assert_eq!(p.memory_cache.channel_ids(), ids);
    assert_eq!(p.playback.queued_next_id, queued);
    assert_eq!(p.backup, Some(2));
    assert_eq!(p.playback.current_channel_id, Some("b".to_string()));
}

#[test]
fn new_player_defaults() {
    let p: PlayerView<u32> = PlayerView::new(None);
    assert_eq!(p.controls.volume, 100);
    assert_eq!(p.controls.sub_label, "Off");
    assert!(p.layout.chat_open);
    assert!(!p.playback.using_backup);
    assert_eq!(p.memory_cache.capacity(), 1);
}

#[test]
fn poll_cadence() {
    assert_eq!(poll_interval_ms(true), 16);
    assert_eq!(poll_interval_ms(false), 60);
}
