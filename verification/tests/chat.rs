use koala_desktop::emoji_input::EmojiInputSubmit;
use koala_desktop::gif_picker::{GifPicker, GifResult};
use koala_desktop::chat::{
    classify_body, gif_message, GifBodyStep, gif_url_is_gif, name_color, parse_hex_color, sticker_is_gif, sticker_message,
    sticker_names, text_to_send, ChatView, MessageBody, PickerTab, MAX_MESSAGES,
};

fn entry(i: usize) -> (String, String, String, String) {
    (format!("u{}", i), format!("m{}", i), "#ff0000".to_string(), "12:00".to_string())
}

#[test]
fn buffer_keeps_last_500() {
    let mut c = ChatView::new();
    for i in 0..510 {
        c.push_message(format!("u{}", i), format!("m{}", i), String::new(), String::new());
    }
    assert_eq!(c.messages.len(), MAX_MESSAGES);
    assert_eq!(c.messages.front().unwrap().text, "m10");
    assert_eq!(c.messages.back().unwrap().text, "m509");
    assert_eq!(c.render_start(), 440);
}

#[test]
fn replace_keeps_last_500_and_ignores_empty_history() {
    let mut c = ChatView::new();
    assert!(c.replace_messages((0..600).map(entry).collect()));
    assert_eq!(c.messages.len(), 500);
    assert_eq!(c.messages[0].username, "u100");
    assert!(!c.messages[0].registered);
    assert!(c.messages[0].id.is_empty());
    assert!(!c.replace_messages(Vec::new()));
    assert_eq!(c.messages.len(), 500);
    c.clear_messages();
    assert!(c.replace_messages(Vec::new()));
    assert_eq!(c.messages.len(), 0);
    assert_eq!(c.render_start(), 0);
}

#[test]
fn hex_colors() {
    assert_eq!(parse_hex_color("#ff8800"), Some(0xff8800));
    assert_eq!(parse_hex_color("##abc"), Some(0xabc));
    assert_eq!(parse_hex_color("+1F"), Some(0x1f));
    assert_eq!(parse_hex_color("+"), None);
    assert_eq!(parse_hex_color(""), None);
    assert_eq!(parse_hex_color("#"), None);
    assert_eq!(parse_hex_color("-1"), None);
    assert_eq!(parse_hex_color("xyz"), None);
    assert_eq!(parse_hex_color("ffffffff"), Some(0xffffffff));
    assert_eq!(parse_hex_color("100000000"), None);
    assert_eq!(name_color("nope"), 0xaaaaaa);
    assert_eq!(name_color("#123456"), 0x123456);
}

#[test]
fn message_bodies() {
    match classify_body("[sticker:cat.png]") {
        MessageBody::Sticker(n) => assert_eq!(n, "cat.png"),
        _ => panic!(),
    }
    match classify_body("[gif:https://t/x.gif]") {
        MessageBody::Gif(u) => assert_eq!(u, "https://t/x.gif"),
        _ => panic!(),
    }
    match classify_body("[sticker:]") {
        MessageBody::Sticker(n) => assert_eq!(n, ""),
        _ => panic!(),
    }
    assert!(matches!(classify_body("[sticker:abc"), MessageBody::Text));
    assert!(matches!(classify_body("hello"), MessageBody::Text));
    assert!(matches!(classify_body("[gif:]"), MessageBody::Gif(_)));
    assert_eq!(gif_message("u"), "[gif:u]");
    assert_eq!(sticker_message("s.png"), "[sticker:s.png]");
    assert!(sticker_is_gif("a.gif"));
    assert!(!sticker_is_gif("a.png"));
    assert!(gif_url_is_gif("https://x/y.gif?z"));
    assert!(!gif_url_is_gif("https://x/y.webp"));
}

#[test]
fn send_trims_white_space() {
    assert_eq!(text_to_send("  salut \n"), Some("salut".to_string()));
    assert_eq!(text_to_send(" \t\u{3000} "), None);
    assert_eq!(text_to_send(""), None);
    assert_eq!(text_to_send("a b"), Some("a b".to_string()));
}

#[test]
fn sticker_list_filtered_and_sorted() {
    let names = vec!["b.png".to_string(), "readme.txt".to_string(), "a.gif".to_string(), "C.png".to_string()];
    assert_eq!(sticker_names(names), vec!["C.png".to_string(), "a.gif".to_string(), "b.png".to_string()]);
}

#[test]
fn picker_and_scroll_state() {
    let mut c = ChatView::new();
    assert!(c.toggle_picker());
    c.select_tab(PickerTab::Stickers);
    assert_eq!(c.picker_tab, PickerTab::Stickers);
    c.close_picker();
    assert!(!c.picker_open);
    c.select_emoji_category(12);
    assert_eq!(c.active_category(5), 4);
    assert_eq!(c.active_category(0), 0);
    c.select_emoji_category(2);
    assert_eq!(c.active_category(5), 2);
    c.on_scroll_wheel(false);
    assert!(c.auto_scroll);
    c.on_scroll_wheel(true);
    assert!(!c.auto_scroll);
    c.resume_auto_scroll();
    assert!(c.auto_scroll);
    c.set_viewer_count(7);
    assert_eq!(c.viewer_count, 7);
}

#[test]
fn what_the_chat_sends() {
    let mut c = ChatView::new();
    assert_eq!(c.input_submitted(EmojiInputSubmit("yo".to_string())).text, "yo");
    assert_eq!(c.send_clicked("  hey  ").map(|m| m.text), Some("hey".to_string()));
    assert!(c.send_clicked("   ").is_none());
    let (mut g, _) = GifPicker::new();
    g.fetch_finished(Some(vec![
        GifResult { gif_url: "https://x/1.gif".into(), preview_url: "p1".into() },
        GifResult { gif_url: "https://x/2.gif".into(), preview_url: "p2".into() },
    ]));
    let picked = g.select_gif(1);
    assert_eq!(picked.0, "https://x/2.gif");
    assert!(c.toggle_picker());
    assert_eq!(c.gif_selected(picked).text, "[gif:https://x/2.gif]");
    assert!(!c.picker_open);
    assert!(c.toggle_picker());
    assert_eq!(c.sticker_clicked("cat.png").text, "[sticker:cat.png]");
    assert!(!c.picker_open);
}

#[test]
fn one_download_per_gif_while_pending() {
    let mut c = ChatView::new();
    assert_eq!(c.gif_body("https://g/1.gif", false), GifBodyStep::Fetch);
    assert_eq!(c.gif_body("https://g/1.gif", false), GifBodyStep::Placeholder);
    assert_eq!(c.gif_pending, vec!["https://g/1.gif".to_string()]);
    assert_eq!(c.gif_body("https://g/1.gif", true), GifBodyStep::Show);
    c.gif_done("https://g/1.gif");
    assert!(c.gif_pending.is_empty());
    assert_eq!(c.gif_body("https://g/1.gif", false), GifBodyStep::Fetch);
}
