use koala_desktop::player_tracks::{
    audio_menu, captions_menu, find_label, list_all_sub_tracks_filtered, list_audio_tracks, menu_action,
    quality, quality_menu, sort_tracks_by_label, str_lt, MenuAction, TrackInfo,
};
use koala_desktop::popup_menu::{MenuEvent, MenuKind};

fn track(kind: &str, id: Option<i64>, lang: &str, title: &str) -> TrackInfo {
    TrackInfo {
        kind: kind.to_string(),
        id,
        lang: lang.to_string(),
        title: title.to_string(),
        numbered_label: format!("Piste {}", id.unwrap_or(0)),
    }
}

#[test]
fn sub_tracks_dedup_by_base_language_and_sorted() {
    let tracks = vec![
        track("sub", Some(1), "fr-CA", ""),
        track("sub", Some(2), "en", ""),
        track("sub", Some(3), "fr", ""),
        track("audio", Some(4), "de", ""),
        track("sub", None, "de", ""),
        track("sub", Some(5), "", ""),
        track("sub", Some(6), "ja", ""),
        track("sub", Some(7), "de", ""),
    ];
    let common = list_all_sub_tracks_filtered(&tracks, true);
    assert_eq!(
        common,
        vec![(7, "Deutsch".to_string()), (2, "English".to_string()), (1, "Français".to_string())]
    );
    let all = list_all_sub_tracks_filtered(&tracks, false);
    assert_eq!(all.len(), 4);
    assert_eq!(all[3], (6, "日本語".to_string()));
}

#[test]
fn audio_tracks_labels() {
    let tracks = vec![
        track("audio", Some(1), "en", "Main"),
        track("audio", Some(2), "", "Commentary"),
        track("audio", Some(3), "", ""),
        track("audio", None, "fr", ""),
        track("sub", Some(4), "fr", ""),
    ];
    let a = list_audio_tracks(&tracks);
    assert_eq!(
        a,
        vec![(1, "en".to_string()), (2, "Commentary".to_string()), (3, "Piste 3".to_string())]
    );
    assert_eq!(find_label(&a, 2), Some("Commentary".to_string()));
    assert_eq!(find_label(&a, 9), None);
}

#[test]
fn string_order_is_bytewise() {
    assert!(str_lt("Deutsch", "English"));
    assert!(!str_lt("English", "English"));
    assert!(str_lt("Eng", "English"));
    assert!(str_lt("Zulu", "ash"));
    let v = sort_tracks_by_label(vec![(1, "b".to_string()), (2, "a".to_string()), (3, "b".to_string())]);
    assert_eq!(v, vec![(2, "a".to_string()), (1, "b".to_string()), (3, "b".to_string())]);
}

#[test]
fn captions_menu_rows_and_selection() {
    let tracks = vec![(3i64, "English".to_string()), (5i64, "Français".to_string())];
    let (rows, sel) = captions_menu(&tracks, true, Some(5), false, 4, "Désactivés", "Plus", "Moins");
    assert_eq!(rows, vec!["Désactivés", "English", "Français", "Plus"]);
    assert_eq!(sel, Some(2));
    let (rows, sel) = captions_menu(&tracks, false, Some(5), false, 2, "Off", "More", "Fewer");
    assert_eq!(rows, vec!["Off", "English", "Français"]);
    assert_eq!(sel, Some(0));
    let (rows, sel) = captions_menu(&tracks, true, Some(9), true, 2, "Off", "More", "Fewer");
    assert_eq!(rows, vec!["Off", "English", "Français", "Fewer"]);
    assert_eq!(sel, None);
}

#[test]
fn audio_and_quality_menus() {
    let (rows, sel) = audio_menu(&vec![], Some(1), "Aucune");
    assert_eq!(rows, vec!["Aucune"]);
    assert_eq!(sel, None);
    let t = vec![(1i64, "en".to_string()), (2i64, "fr".to_string())];
    let (rows, sel) = audio_menu(&t, Some(2), "Aucune");
    assert_eq!(rows, vec!["en", "fr"]);
    assert_eq!(sel, Some(1));
    let (rows, sel) = quality_menu(3);
    assert_eq!(rows, vec!["Auto", "1080p", "720p", "480p", "360p"]);
    assert_eq!(sel, Some(3));
    assert_eq!(quality(4).0, "360p");
    assert!(quality(0).1.ends_with("/best"));
}

#[test]
fn menu_actions() {
    let subs = vec![(3i64, "English".to_string())];
    let audio = vec![(8i64, "en".to_string())];
    let q = menu_action(MenuEvent::Selected { kind: MenuKind::Quality, index: 7 }, &subs, &audio);
    assert_eq!(q, MenuAction::SetQuality(7));
    let c = menu_action(MenuEvent::Selected { kind: MenuKind::Captions, index: 1 }, &subs, &audio);
    assert_eq!(c, MenuAction::SetSubTrack(Some(3)));
    let t = menu_action(MenuEvent::Selected { kind: MenuKind::Captions, index: 2 }, &subs, &audio);
    assert_eq!(t, MenuAction::ToggleMoreLangs);
    let n = menu_action(MenuEvent::Selected { kind: MenuKind::Captions, index: 3 }, &subs, &audio);
    assert_eq!(n, MenuAction::Nothing);
}
