use koala_desktop::planning::{
    add_days_ms, block_layout, channel_name, clamp_week_offset, day_header_label, fmt_day, hour_label,
    is_current_block, is_today, local_time_hhmm, now_line_y_milli, range_label, schedule_between,
    scroll_target_for_hour, start_of_week_ms, week_days, week_label, PlanningBody, PlanningView, PlaylistInfo,
    ScheduledVideo, ServerChannel,
};

fn video(id: &str, d: i64) -> ScheduledVideo {
    ScheduledVideo { video_id: id.to_string(), title: format!("t-{}", id), duration: d }
}

#[test]
fn schedule_wraps_around_the_cycle() {
    let pl = PlaylistInfo { videos: vec![video("a", 60), video("b", 120)], total_duration: 180, tv_started_at: 0 };
    let blocks = schedule_between(&pl, 90_000, 300_000);
    let got: Vec<(i64, i64, String)> = blocks.iter().map(|b| (b.start_ms, b.end_ms, b.video_id.clone())).collect();
    assert_eq!(
        got,
        vec![(90_000, 180_000, "b".to_string()), (180_000, 240_000, "a".to_string()), (240_000, 300_000, "b".to_string())]
    );
}

#[test]
fn schedule_empty_playlist() {
    let pl = PlaylistInfo { videos: vec![], total_duration: 0, tv_started_at: 0 };
    assert!(schedule_between(&pl, 0, 1000).is_empty());
}

#[test]
fn calendar_helpers() {
    assert_eq!(add_days_ms(0, 2), 172_800_000);
    let d = week_days(1000);
    assert_eq!(d[6], 1000 + 6 * 86_400_000);
    // Wednesday (3) midnight at 10 days: Monday is two days before.
    assert_eq!(start_of_week_ms(864_000, 3), (864_000 - 2 * 86_400) * 1000);
    assert_eq!(start_of_week_ms(864_000, 0), (864_000 - 6 * 86_400) * 1000);
    assert!(is_today((125, 1, 12), (125, 1, 12)));
    assert!(!is_today((125, 1, 12), (125, 1, 13)));
    assert!(is_current_block(true, 10, 20, 10));
    assert!(!is_current_block(true, 10, 20, 20));
    assert!(!is_current_block(false, 10, 20, 15));
    assert_eq!(fmt_day(3, 7), "03 août");
    assert_eq!(local_time_hhmm(9, 5), "09:05");
    assert_eq!(hour_label(7), "07:00");
    assert_eq!(day_header_label(6), "DIM");
    assert_eq!(week_label(0), "Cette semaine");
    assert_eq!(week_label(1), "Semaine prochaine");
    assert_eq!(range_label("03 août", "09 août"), "03 août — 09 août");
    assert_eq!(clamp_week_offset(5), 1);
    assert_eq!(clamp_week_offset(-2), 0);
    assert_eq!(scroll_target_for_hour(0), 1);
    assert_eq!(scroll_target_for_hour(14), 14);
    assert_eq!(scroll_target_for_hour(99), 24);
}

#[test]
fn grid_geometry() {
    // A 30-minute block starting at 01:00: 60 px tall minus the gap.
    let b = block_layout(0, 3_600_000, 5_400_000).unwrap();
    assert_eq!(b.top_milli, 122_000);
    assert_eq!(b.height_milli, 56_000);
    assert!(b.show_title);
    // Under 3 minutes: not drawn.
    assert!(block_layout(0, 0, 179_999).is_none());
    let b = block_layout(0, 0, 180_000).unwrap();
    assert_eq!(b.height_milli, 2_000);
    assert!(!b.show_title);
    assert!(!block_layout(0, 0, 1_139_999).unwrap().show_title);
    assert!(block_layout(0, 0, 1_140_000).unwrap().show_title);
    assert_eq!(now_line_y_milli(0, 0, 0), 72_000);
    assert_eq!(now_line_y_milli(12, 30, 0), 72_000 + 1_500_000);
}

#[test]
fn view_state() {
    let chans = vec![
        ServerChannel { id: "a".to_string(), name: "Alpha".to_string() },
        ServerChannel { id: "b".to_string(), name: "Beta".to_string() },
    ];
    assert_eq!(channel_name(&chans, "b"), "Beta");
    assert_eq!(channel_name(&chans, "zz"), "zz");
    let mut v = PlanningView::new(chans, "a".to_string(), 0);
    assert_eq!(v.body(), PlanningBody::Loading);
    v.fetch_finished(None);
    assert_eq!(v.body(), PlanningBody::Unavailable);
    assert!(!v.set_channel("a".to_string()));
    v.toggle_dropdown();
    assert!(v.pick_channel("b".to_string()));
    assert!(!v.channel_dropdown_open);
    assert_eq!(v.body(), PlanningBody::Loading);
    v.fetch_finished(Some(PlaylistInfo { videos: vec![video("x", 10)], total_duration: 10, tv_started_at: 0 }));
    assert_eq!(v.body(), PlanningBody::Grid);
    assert_eq!(v.take_scroll_target(8), Some(8));
    assert_eq!(v.take_scroll_target(8), None);
    v.week_next();
    assert_eq!(v.week_offset, 1);
    assert_eq!(v.take_scroll_target(0), Some(1));
    v.week_next();
    assert_eq!(v.week_offset, 1);
    assert_eq!(v.week_start(0), 7 * 86_400_000);
    v.week_prev();
    assert_eq!(v.week_offset, 0);
    v.tick(99);
    assert_eq!(v.now_ms, 99);
}
