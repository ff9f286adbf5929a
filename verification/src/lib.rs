//! Verified core of the Koala TV desktop views: the logic of the player,
//! its overlays, the schedule view, the chat and the sidebar, with the
//! X11 / GPUI plumbing left to the embedding application.

pub mod text;
pub mod clock;
pub mod icons;
pub mod player_util;
pub mod xft_text;
pub mod memory_cache;
pub mod popup_menu;
pub mod planning;
pub mod backup_player;
pub mod channel_badge;
pub mod player_tracks;
pub mod player;
pub mod chat;
pub mod emoji_input;
pub mod sidebar;
pub mod gif_picker;
pub mod auth;
pub mod settings_modal;
pub mod loading_overlay;
pub mod tooltip;
pub mod player_widgets;
pub mod remote_modal;
