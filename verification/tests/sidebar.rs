use koala_desktop::sidebar::{name_initial, Section, SidebarRow, SidebarView};

fn ch(id: &str, name: &str) -> (String, String, String, String) {
    (id.to_string(), name.to_string(), format!("@{}", id), String::new())
}

#[test]
fn channels_sorted_case_insensitively_and_selection_kept() {
    let mut s = SidebarView::new();
    s.apply_channels(vec![ch("z", "zeta"), ch("b", "Beta"), ch("a", "alpha")], 7);
    let names: Vec<&str> = s.channels.iter().map(|c| c.name.as_str()).collect();
    assert_eq!(names, vec!["alpha", "Beta", "zeta"]);
    assert_eq!(s.selected, 7 % 3);
    s.select(2);
    s.apply_channels(vec![ch("z", "zeta"), ch("c", "Gamma"), ch("a", "alpha")], 0);
    assert_eq!(s.channels[s.selected].id, "z");
    assert_eq!(s.selected_channel(), Some(("z".to_string(), "zeta".to_string(), "@z".to_string())));
    s.apply_channels(vec![ch("q", "Q")], 5);
    assert_eq!(s.selected, 0);
    s.apply_channels(vec![], 5);
    assert_eq!(s.selected, 0);
    assert_eq!(s.selected_channel(), None);
}

#[test]
fn random_pick_from_clock_is_in_range() {
    let mut s = SidebarView::new();
    s.set_channels_from_server(vec![ch("a", "A"), ch("b", "B"), ch("c", "C")]);
    assert!(s.selected < 3);
    assert!(s.has_channel("b"));
    assert!(!s.has_channel("x"));
}

#[test]
fn equal_names_keep_server_order() {
    let mut s = SidebarView::new();
    s.apply_channels(vec![ch("1", "Same"), ch("2", "same"), ch("3", "SAME")], 0);
    let ids: Vec<&str> = s.channels.iter().map(|c| c.id.as_str()).collect();
    assert_eq!(ids, vec!["1", "2", "3"]);
}

#[test]
fn rows_with_sections() {
    let mut s = SidebarView::new();
    s.apply_channels(vec![ch("a", "Alpha"), ch("b", "Beta"), ch("c", "Gamma")], 0);
    s.select(1);
    s.set_memory_channel_ids(vec!["b".to_string(), "c".to_string(), "zz".to_string()]);
    s.set_favorites(vec!["a".to_string(), "nope".to_string()]);
    s.set_search_query("AL".to_string());
    assert_eq!(
        s.rows(),
        vec![
            SidebarRow::Header(Section::Memory),
            SidebarRow::Button(1, Section::Memory),
            SidebarRow::Button(2, Section::Memory),
            SidebarRow::Header(Section::Favorites),
            SidebarRow::Button(0, Section::Favorites),
            SidebarRow::Header(Section::Main),
            SidebarRow::Button(0, Section::Main),
        ]
    );
    s.set_search_query("nothing".to_string());
    s.set_favorites(vec![]);
    s.set_memory_channel_ids(vec![]);
    assert_eq!(s.rows(), vec![SidebarRow::Header(Section::Memory), SidebarRow::Button(1, Section::Memory)]);
}

#[test]
fn memory_section_holds_five_at_most() {
    let mut s = SidebarView::new();
    let list: Vec<(String, String, String, String)> =
        (0..8).map(|i| ch(&format!("c{}", i), &format!("N{}", i))).collect();
    s.apply_channels(list, 0);
    s.select(0);
    s.set_memory_channel_ids((1..8).map(|i| format!("c{}", i)).collect());
    s.set_search_query("zzz".to_string());
    let mem = s.rows().iter().filter(|r| matches!(r, SidebarRow::Button(_, Section::Memory))).count();
    assert_eq!(mem, 5);
}

#[test]
fn initials() {
    assert_eq!(name_initial("Élodie"), "É");
    assert_eq!(name_initial(""), "?");
}

#[test]
fn click_hover_and_right_click_report_the_channel() {
    let mut s = SidebarView::new();
    s.apply_channels(vec![ch("a", "Alpha"), ch("b", "Beta")], 0);
    let ev = s.click_channel(1);
    assert_eq!(s.selected, 1);
    assert_eq!((ev.channel_id.as_str(), ev.channel_name.as_str(), ev.handle.as_str()), ("b", "Beta", "@b"));
    assert_eq!(s.hover_channel(0, true).0, Some(("a".to_string(), "Alpha".to_string())));
    assert_eq!(s.hover_channel(0, false).0, None);
    assert_eq!(s.right_click_channel(0).0, "a");
}

#[test]
fn server_refresh_keeps_user_state_and_prunes_avatars() {
    let mut s = SidebarView::new();
    s.set_avatar("a".to_string(), vec![1]);
    s.set_avatar("b".to_string(), vec![2]);
    s.set_avatar("a".to_string(), vec![3]);
    assert_eq!(s.avatars, vec![("a".to_string(), vec![3]), ("b".to_string(), vec![2])]);
    s.set_search_query("al".to_string());
    s.set_favorites(vec!["a".to_string()]);
    s.set_memory_channel_ids(vec!["b".to_string()]);
    s.set_channels_from_server(vec![ch("a", "Alpha"), ch("c", "Gamma")]);
    assert_eq!(s.avatars, vec![("a".to_string(), vec![3])]);
    assert_eq!(s.search_query, "al");
    assert_eq!(s.favorite_channel_ids, vec!["a".to_string()]);
    assert_eq!(s.memory_channel_ids, vec!["b".to_string()]);
}
