//! The player's state machine. The application drives two player
//! processes (a high-quality main one and a low-quality backup one kept
//! decoding the same video) and asks this module what to do: on every
//! poll tick (swap to the backup when the main one stalls, back when it
//! has recovered, detect the auto-advance to the prefetched video, lift
//! the loading screen), and on every state received from the server
//! (switch channel through the memory cache, reload, prefetch).
//! Times are milliseconds of a monotonic clock read by the caller;
//! player properties are read by the caller and handed in.

use vstd::prelude::*;
use crate::text::{opt_str_eq, opt_view, str_contains, str_contains_spec, string_of};
use crate::player_util::{extract_video_id, video_id_of, watch_url, watch_url_spec};
use crate::memory_cache::{ids_of, index_of_id, pushed, without_id, truncate, MemorizedChannel, MemoryCache};
use crate::player_tracks::{
    find_label, label_of, menu_action, menu_action_spec, pairs_view, quality, quality_format,
    MenuAction, QUALITY_COUNT,
};
use crate::popup_menu::{MenuEvent, MenuKind};

verus! {

/// How long the main player must stay stalled before the backup takes over.
pub const SWAP_DOWN_STALL_MS: u64 = 2000;
/// How long the backup stays on screen at least before the main one returns.
pub const SWAP_UP_MIN_MS: u64 = 3000;
/// Swap down: the backup is realigned on the main position beyond this drift.
pub const SWAP_DOWN_DRIFT_MS: u64 = 500;
/// Swap up: the main player is realigned on the backup beyond this drift.
pub const SWAP_UP_DRIFT_MS: u64 = 300;
/// Positions at or below this are not worth seeking to.
pub const MIN_SEEK_POS_MS: i64 = 500;
/// Poll interval while a transition is under way, in ms.
pub const CRITICAL_POLL_MS: u64 = 16;
/// Poll interval otherwise, in ms.
pub const IDLE_POLL_MS: u64 = 60;

/// Playback state shared by the poll loop and the channel switch.
pub struct PlaybackState {
    /// Watch URL of the current video.
    pub current_url: String,
    /// Video id of the current video.
    pub current_video_id: Option<String>,
    /// Video id already appended to the main playlist for prefetch.
    pub queued_next_id: Option<String>,
    /// Video id the main player's `path` showed at the previous tick.
    pub last_observed_video_id: Option<String>,
    /// Channel currently active.
    pub current_channel_id: Option<String>,
    pub title: String,
    pub published_at: Option<String>,
    /// When the main player was first seen stalled on its cache.
    pub cache_stall_since: Option<u64>,
    /// The backup is the visible source.
    pub using_backup: bool,
    /// When the backup last became the visible source.
    pub backup_since: Option<u64>,
    /// Safety deadline of the loading screen (armed when nothing plays).
    pub loading_until: Option<u64>,
    /// The loading screen waits for this video to play.
    pub loading_for_video: Option<String>,
    /// Main player's `path` when the switch began.
    pub loading_pre_path: Option<String>,
    /// Backup player's `path` when the switch began.
    pub loading_pre_path_backup: Option<String>,
    /// When a channel switch was requested from the interface.
    pub switch_arm_at: Option<u64>,
    /// The main player decoded a frame of the current file.
    pub main_first_frame_ready: bool,
    /// The backup is hidden until it decodes a frame of the new video.
    pub pending_backup_reveal: bool,
}

/// What the caller read from the players for one poll tick.
pub struct PollInput {
    pub now_ms: u64,
    /// A video reconfiguration was among the main player's events.
    pub saw_video_reconfig: bool,
    /// The backup decoded its first frame (true without a backup); only
    /// read while a reveal is pending.
    pub backup_ready: bool,
    /// Main player's `path` ("" when unreadable).
    pub main_path: String,
    /// Main player's `core-idle` (true when unreadable).
    pub main_core_idle: bool,
    /// Main player's `paused-for-cache` (false when unreadable).
    pub main_stalled: bool,
    /// Main player's `seeking` (false when unreadable).
    pub main_seeking: bool,
    /// The backup plays something other than its pre-switch path.
    pub backup_playing_different: bool,
    /// Main player's `time-pos` in ms (0 when unreadable).
    pub main_pos_ms: i64,
    /// Backup player's `time-pos` in ms (0 when unreadable).
    pub backup_pos_ms: i64,
}

/// The main player moved on by itself to the next video of the channel.
pub struct AutoAdvanced {
    pub new_video_id: String,
}

/// Delay before the next poll tick: the fast cadence while a
/// sub-second transition is under way (`PollActions::critical`), the
/// idle one otherwise.
pub fn poll_interval_ms(critical: bool) -> (r: u64)
    ensures
        r == (if critical { CRITICAL_POLL_MS } else { IDLE_POLL_MS }),
{
    if critical {
        CRITICAL_POLL_MS
    } else {
        IDLE_POLL_MS
    }
}

/// The parked channels changed: their ids, most recent first.
pub struct MemoryChanged(pub Vec<String>);

/// The id carried by an optional auto-advance.
pub open spec fn advanced_id(a: Option<AutoAdvanced>) -> Option<Seq<char>> {
    match a {
        Some(e) => Some(e.new_video_id@),
        None => None,
    }
}

/// What a poll tick asks the caller to do.
pub struct PollActions {
    /// Unmute the main player and fade its volume in.
    pub fade_in_main: bool,
    /// Show the backup: its first frame of the new video is ready.
    pub reveal_backup: bool,
    /// The main player moved on to this prefetched video: re-arm the
    /// backup on it and tell the application.
    pub auto_advanced: Option<AutoAdvanced>,
    /// Swap to the backup (show it, crossfade the audio).
    pub swap_down: bool,
    /// Before swapping down, seek the backup here.
    pub backup_seek_ms: Option<i64>,
    /// Swap back to the main player (unmute, crossfade, move the backup away).
    pub swap_up: bool,
    /// Before swapping up, seek the main player here.
    pub main_seek_ms: Option<i64>,
    /// Distance between the two positions, in ms.
    pub drift_ms: u64,
    /// Time spent on the backup when swapping up, in ms.
    pub backup_elapsed_ms: u64,
    /// The interface must be redrawn.
    pub notify: bool,
    /// A sub-second transition is under way: poll at the fast cadence.
    pub critical: bool,
}

/// Which swap a tick makes.
#[derive(Copy, Clone, PartialEq, Eq, Debug, Structural)]
pub enum SwapStep {
    Stay,
    Down,
    Up,
}

/// `now - since`, zero when the clock reads earlier.
pub open spec fn elapsed(now: u64, since: u64) -> nat {
    if now >= since {
        (now - since) as nat
    } else {
        0
    }
}

/// `|a - b|`.
pub open spec fn abs_diff(a: i64, b: i64) -> nat {
    if a >= b {
        (a - b) as nat
    } else {
        (b - a) as nat
    }
}

/// The main player's path before the switch ("" if unknown).
pub open spec fn pre_main_view(s: PlaybackState) -> Seq<char> {
    match s.loading_pre_path {
        Some(p) => p@,
        None => Seq::empty(),
    }
}

/// The pending reveal completes this tick.
pub open spec fn poll_revealed(s: PlaybackState, inp: PollInput) -> bool {
    s.pending_backup_reveal && inp.backup_ready
}

/// The main player is rendering something other than its pre-switch path.
pub open spec fn poll_main_ok(s: PlaybackState, inp: PollInput) -> bool {
    &&& inp.main_path@.len() > 0
    &&& inp.main_path@ != pre_main_view(s)
    &&& !inp.main_core_idle
    &&& !inp.main_stalled
    &&& !inp.main_seeking
}

/// The loading screen is lifted this tick.
pub open spec fn poll_loading_cleared(s: PlaybackState, inp: PollInput, has_backup: bool) -> bool {
    s.loading_for_video is Some && (poll_main_ok(s, inp) || (has_backup && inp.backup_playing_different))
}

/// The main player's path shows a video id not seen at the last tick.
pub open spec fn poll_observed_new(s: PlaybackState, inp: PollInput) -> bool {
    video_id_of(inp.main_path@) is Some && video_id_of(inp.main_path@) != opt_view(s.last_observed_video_id)
}

/// The main player advanced on its own to another video.
pub open spec fn poll_advanced(s: PlaybackState, inp: PollInput) -> bool {
    poll_observed_new(s, inp) && opt_view(s.current_video_id) != video_id_of(inp.main_path@)
}

/// `(using_backup, cache_stall_since, backup_since, main_first_frame_ready)`
/// after the reveal and the auto-advance steps of a tick.
pub open spec fn poll_mid(s: PlaybackState, inp: PollInput) -> (bool, Option<u64>, Option<u64>, bool) {
    if poll_advanced(s, inp) {
        (false, None, None, false)
    } else if poll_revealed(s, inp) {
        (true, None, Some(inp.now_ms), s.main_first_frame_ready || inp.saw_video_reconfig)
    } else {
        (s.using_backup, s.cache_stall_since, s.backup_since, s.main_first_frame_ready || inp.saw_video_reconfig)
    }
}

/// The swap step: `(using_backup, cache_stall_since, backup_since, step)`.
/// Off the backup, a stall lasting `SWAP_DOWN_STALL_MS` swaps down; on
/// the backup for `SWAP_UP_MIN_MS`, a main player that is not stalled
/// and has decoded a frame swaps back up.
pub open spec fn poll_swap(
    has_backup: bool,
    mid: (bool, Option<u64>, Option<u64>, bool),
    inp: PollInput,
) -> (bool, Option<u64>, Option<u64>, SwapStep) {
    let (ub, stall, since, ready) = mid;
    if !has_backup {
        (ub, stall, since, SwapStep::Stay)
    } else if !ub {
        if inp.main_stalled {
            let s0 = match stall {
                Some(t) => t,
                None => inp.now_ms,
            };
            if elapsed(inp.now_ms, s0) >= SWAP_DOWN_STALL_MS {
                (true, None, Some(inp.now_ms), SwapStep::Down)
            } else {
                (false, Some(s0), since, SwapStep::Stay)
            }
        } else {
            (false, None, since, SwapStep::Stay)
        }
    } else {
        match since {
            Some(t) => if elapsed(inp.now_ms, t) >= SWAP_UP_MIN_MS && !inp.main_stalled && ready {
                (false, None, None, SwapStep::Up)
            } else {
                (ub, stall, since, SwapStep::Stay)
            },
            None => (ub, stall, since, SwapStep::Stay),
        }
    }
}

/// The state after a tick (see `poll_swap` and `poll_mid`).
pub open spec fn poll_final(s: PlaybackState, inp: PollInput, has_backup: bool) -> (bool, Option<u64>, Option<u64>, SwapStep) {
    poll_swap(has_backup, poll_mid(s, inp), inp)
}

fn abs_diff_exec(a: i64, b: i64) -> (r: u64)
    ensures
        r == abs_diff(a, b),
{
    if a >= b {
        (a as i128 - b as i128) as u64
    } else {
        (b as i128 - a as i128) as u64
    }
}

fn elapsed_exec(now: u64, since: u64) -> (r: u64)
    ensures
        r == elapsed(now, since),
{
    if now >= since {
        now - since
    } else {
        0
    }
}

impl PlaybackState {
    /// Nothing loaded yet: no video, no channel, no switch under way.
    pub fn new() -> (r: Self)
        ensures
            r.current_url@ == Seq::<char>::empty(),
            r.current_video_id is None,
            r.queued_next_id is None,
            r.last_observed_video_id is None,
            r.current_channel_id is None,
            r.title@ == Seq::<char>::empty(),
            r.published_at is None,
            r.cache_stall_since is None,
            !r.using_backup,
            r.backup_since is None,
            r.loading_until is None,
            r.loading_for_video is None,
            r.loading_pre_path is None,
            r.loading_pre_path_backup is None,
            r.switch_arm_at is None,
            !r.main_first_frame_ready,
            !r.pending_backup_reveal,
    {
        PlaybackState {
            current_url: String::new(),
            current_video_id: None,
            queued_next_id: None,
            last_observed_video_id: None,
            current_channel_id: None,
            title: String::new(),
            published_at: None,
            cache_stall_since: None,
            using_backup: false,
            backup_since: None,
            loading_until: None,
            loading_for_video: None,
            loading_pre_path: None,
            loading_pre_path_backup: None,
            switch_arm_at: None,
            main_first_frame_ready: false,
            pending_backup_reveal: false,
        }
    }

    /// One poll tick: record the main player's first frame, complete a
    /// pending backup reveal, lift the loading screen once a player shows
    /// the new video, follow an auto-advance, and swap between the two
    /// players (`has_backup`: a backup player exists).
    pub fn poll(&mut self, inp: &PollInput, has_backup: bool) -> (r: PollActions)
        ensures
            ({
                let s = *old(self);
                let (ub, stall, since, step) = poll_final(s, *inp, has_backup);
                let cleared = poll_loading_cleared(s, *inp, has_backup);
                let adv = poll_advanced(s, *inp);
                let drift = abs_diff(inp.backup_pos_ms, inp.main_pos_ms);
                &&& final(self).main_first_frame_ready == poll_mid(s, *inp).3
                &&& final(self).using_backup == ub
                &&& final(self).cache_stall_since == stall
                &&& final(self).backup_since == since
                &&& final(self).pending_backup_reveal == (s.pending_backup_reveal && !inp.backup_ready)
                &&& (cleared ==> {
                    &&& final(self).loading_for_video is None
                    &&& final(self).loading_until is None
                    &&& final(self).loading_pre_path is None
                    &&& final(self).loading_pre_path_backup is None
                })
                &&& (!cleared ==> {
                    &&& final(self).loading_for_video == s.loading_for_video
                    &&& final(self).loading_until == s.loading_until
                    &&& final(self).loading_pre_path == s.loading_pre_path
                    &&& final(self).loading_pre_path_backup == s.loading_pre_path_backup
                })
                &&& opt_view(final(self).last_observed_video_id) == (if poll_observed_new(s, *inp) {
                    video_id_of(inp.main_path@)
                } else {
                    opt_view(s.last_observed_video_id)
                })
                &&& opt_view(final(self).current_video_id) == (if adv {
                    video_id_of(inp.main_path@)
                } else {
                    opt_view(s.current_video_id)
                })
                &&& (adv ==> final(self).queued_next_id is None)
                &&& (!adv ==> final(self).queued_next_id == s.queued_next_id)
                &&& final(self).current_url == s.current_url
                &&& final(self).current_channel_id == s.current_channel_id
                &&& final(self).title == s.title
                &&& final(self).published_at == s.published_at
                &&& final(self).switch_arm_at == s.switch_arm_at
                &&& r.fade_in_main == (inp.saw_video_reconfig && !s.main_first_frame_ready && !s.using_backup)
                &&& r.reveal_backup == poll_revealed(s, *inp)
                &&& advanced_id(r.auto_advanced) == (if adv { video_id_of(inp.main_path@) } else { None })
                &&& r.swap_down == (step == SwapStep::Down)
                &&& r.backup_seek_ms == (if step == SwapStep::Down && drift > SWAP_DOWN_DRIFT_MS
                    && inp.main_pos_ms > MIN_SEEK_POS_MS {
                    Some(inp.main_pos_ms)
                } else {
                    None
                })
                &&& r.swap_up == (step == SwapStep::Up)
                &&& r.main_seek_ms == (if step == SwapStep::Up && drift > SWAP_UP_DRIFT_MS
                    && inp.backup_pos_ms > MIN_SEEK_POS_MS {
                    Some(inp.backup_pos_ms)
                } else {
                    None
                })
                &&& r.drift_ms == drift
                &&& (step == SwapStep::Up ==> r.backup_elapsed_ms == elapsed(inp.now_ms, poll_mid(s, *inp).2->0))
                &&& r.notify == (poll_revealed(s, *inp) || cleared)
                &&& r.critical == (final(self).loading_for_video is Some || final(self).cache_stall_since is Some
                    || final(self).switch_arm_at is Some || final(self).pending_backup_reveal)
            }),
    {
        let now = inp.now_ms;
        let mut notify = false;

        // Main player events: its first decoded frame.
        let just_became_ready = inp.saw_video_reconfig && !self.main_first_frame_ready;
        if inp.saw_video_reconfig {
            self.main_first_frame_ready = true;
        }
        let fade_in_main = just_became_ready && !self.using_backup;

        // Pending channel switch: reveal the backup once it has a frame.
        let reveal_backup = self.pending_backup_reveal && inp.backup_ready;
        if reveal_backup {
            self.using_backup = true;
            self.cache_stall_since = None;
            self.backup_since = Some(now);
            self.pending_backup_reveal = false;
            notify = true;
        }

        // Auto-advance: the path shows the prefetched video.
        let observed = extract_video_id(inp.main_path.as_str());

        // Lift the loading screen once main or backup shows new content.
        if self.loading_for_video.is_some() {
            let main_ok = match &self.loading_pre_path {
                Some(p) => crate::backup_player::is_playing_different_from(
                    inp.main_path.as_str(),
                    p.as_str(),
                    inp.main_core_idle,
                    inp.main_stalled,
                    inp.main_seeking,
                ),
                None => crate::backup_player::is_playing_different_from(
                    inp.main_path.as_str(),
                    "",
                    inp.main_core_idle,
                    inp.main_stalled,
                    inp.main_seeking,
                ),
            };
            proof {
                reveal_strlit("");
            }
            let backup_ok = has_backup && inp.backup_playing_different;
            if main_ok || backup_ok {
                self.loading_for_video = None;
                self.loading_until = None;
                self.loading_pre_path = None;
                self.loading_pre_path_backup = None;
                notify = true;
            }
        }

        let mut auto_advanced: Option<AutoAdvanced> = None;
        if observed.is_some() && !opt_str_eq(&observed, &self.last_observed_video_id) {
            self.last_observed_video_id = observed.clone();
            if !opt_str_eq(&self.current_video_id, &observed) {
                self.current_video_id = observed.clone();
                self.queued_next_id = None;
                self.cache_stall_since = None;
                self.using_backup = false;
                self.main_first_frame_ready = false;
                // Re-arm the backup on the new video.
                self.backup_since = None;
                auto_advanced = match observed {
                    Some(id) => Some(AutoAdvanced { new_video_id: id }),
                    None => None,
                };
            }
        }

        // Swap between main and backup.
        let drift = abs_diff_exec(inp.backup_pos_ms, inp.main_pos_ms);
        let mut swap_down = false;
        let mut backup_seek_ms: Option<i64> = None;
        let mut swap_up = false;
        let mut main_seek_ms: Option<i64> = None;
        let mut backup_elapsed_ms: u64 = 0;
        if has_backup {
            if !self.using_backup {
                if inp.main_stalled {
                    let since = match self.cache_stall_since {
                        Some(t) => t,
                        None => now,
                    };
                    self.cache_stall_since = Some(since);
                    if elapsed_exec(now, since) >= SWAP_DOWN_STALL_MS {
                        if drift > SWAP_DOWN_DRIFT_MS && inp.main_pos_ms > MIN_SEEK_POS_MS {
                            backup_seek_ms = Some(inp.main_pos_ms);
                        }
                        swap_down = true;
                        self.using_backup = true;
                        self.cache_stall_since = None;
                        self.backup_since = Some(now);
                    }
                } else {
                    self.cache_stall_since = None;
                }
            } else if let Some(since) = self.backup_since {
                let el = elapsed_exec(now, since);
                let main_ready = !inp.main_stalled && self.main_first_frame_ready;
                if el >= SWAP_UP_MIN_MS && main_ready {
                    if drift > SWAP_UP_DRIFT_MS && inp.backup_pos_ms > MIN_SEEK_POS_MS {
                        main_seek_ms = Some(inp.backup_pos_ms);
                    }
                    swap_up = true;
                    backup_elapsed_ms = el;
                    self.using_backup = false;
                    self.backup_since = None;
                    self.cache_stall_since = None;
                }
            }
        }

        let critical = self.loading_for_video.is_some() || self.cache_stall_since.is_some()
            || self.switch_arm_at.is_some() || self.pending_backup_reveal;
        PollActions {
            fade_in_main,
            reveal_backup,
            auto_advanced,
            swap_down,
            backup_seek_ms,
            swap_up,
            main_seek_ms,
            drift_ms: drift,
            backup_elapsed_ms,
            notify,
            critical,
        }
    }
}


/// Capacity of the memory cache at start: one previous channel.
pub const DEFAULT_MEMORY_CAPACITY: usize = 1;
/// Safety deadline of the loading screen after a new video, in ms.
pub const LOADING_DEADLINE_MS: u64 = 10_000;
/// Loading deadline armed when playback stops, in ms (an hour).
pub const STOPPED_LOADING_MS: u64 = 3_600_000;

/// Settings of the control bar and its popup menus.
pub struct ControlsState {
    /// Row of the quality menu in use.
    pub quality_idx: usize,
    pub captions_on: bool,
    /// Volume of the main player, 0 to 100.
    pub volume: i64,
    /// Label of the captions button.
    pub sub_label: String,
    /// Label of the audio button.
    pub audio_label: String,
    pub captions_open: bool,
    pub audio_open: bool,
    pub quality_open: bool,
    /// The captions menu lists every language, not only the common ones.
    pub show_all_sub_langs: bool,
}

/// Where the video sits in the window.
pub struct LayoutState {
    /// Top of the control bar, in window coordinates (anchor of the menus).
    pub control_bar_y: i32,
    /// Right end of the control bar, in window coordinates.
    pub control_bar_right: i32,
    /// Last geometry given to the video window.
    pub last_area: Option<(i32, i32, u32, u32)>,
    /// A modal covers the video: the video window is moved away.
    pub video_hidden: bool,
    /// The chat sidebar is open.
    pub chat_open: bool,
}

/// The player: playback state, controls, layout, the active backup
/// player `B` and the memory cache of parked ones.
pub struct PlayerView<B> {
    pub playback: PlaybackState,
    pub controls: ControlsState,
    pub layout: LayoutState,
    pub backup: Option<B>,
    pub memory_cache: MemoryCache<B>,
}

/// A state received from the server, as the player needs it.
pub struct TvStateInfo {
    pub video_id: String,
    pub channel_id: String,
    pub title: String,
    pub published_at: Option<String>,
    /// Video the server will play next, to prefetch.
    pub next_video_id: Option<String>,
    /// Pre-resolved stream URL for the main player.
    pub resolved_url: Option<String>,
    /// Pre-resolved low-quality stream URL for the backup.
    pub resolved_url_lq: Option<String>,
    /// The pre-resolved URLs are still fresh.
    pub resolved_url_fresh: bool,
}

/// How a received state changes the channel.
#[derive(Copy, Clone, PartialEq, Eq, Debug, Structural)]
pub enum SwitchPlan {
    /// Same channel (or the very first state): nothing to swap.
    Keep,
    /// The channel is parked in the memory cache: take its backup back.
    FromCache,
    /// A new channel: a fresh backup player is needed.
    Fresh,
    /// A new channel and no backup player to swap.
    NoBackup,
}

/// What the caller must do with the players after a received state.
pub struct VideoPlan {
    /// The video changed.
    pub video_changed: bool,
    /// Load the watch URL of the video into the backup (hidden until its
    /// first frame), with this pre-resolved URL when given.
    pub load_backup: bool,
    pub backup_resolved: Option<String>,
    /// Reload the main player: drain its events, clear its playlist,
    /// start it muted at volume 0 and load this URL.
    pub main_load: Option<String>,
    /// Let the main player resolve the URL itself (no pre-resolved one).
    pub main_ytdl: bool,
    /// Trim the main playlist to its current entry and append this URL.
    pub prefetch_url: Option<String>,
}

/// Sizes of the window's fixed parts, in pixels.
pub struct LayoutMetrics {
    pub sidebar_w: i32,
    pub chat_w: i32,
    pub topbar_h: i32,
    pub control_bar_h: i32,
    pub infobar_h: i32,
}

/// Smallest size of the video area in each direction.
pub const MIN_VIDEO_SIDE: i64 = 100;

/// Width of the video area for a viewport `vw` pixels wide.
pub open spec fn video_w(vw: i32, m: LayoutMetrics, chat_open: bool) -> int {
    let chat = if chat_open { m.chat_w as int } else { 0 };
    let w = vw - m.sidebar_w - chat;
    if w < MIN_VIDEO_SIDE { MIN_VIDEO_SIDE as int } else { w }
}

/// Height of the video area for a viewport `vh` pixels high.
pub open spec fn video_h(vh: i32, m: LayoutMetrics) -> int {
    let h = vh - m.topbar_h - m.control_bar_h - m.infobar_h;
    if h < MIN_VIDEO_SIDE { MIN_VIDEO_SIDE as int } else { h }
}

/// What a frame of the player view does with its windows.
pub struct RenderPlan {
    /// Geometry of the video window (off-screen while a modal covers it).
    pub area: (i32, i32, u32, u32),
    /// The geometry changed: move the video window and the backup.
    pub geometry_changed: bool,
    /// The size changed: resynchronise audio and video with a seek.
    pub size_changed: bool,
    /// The backup is the visible source: raise it.
    pub show_backup: bool,
}

/// The pointer, at `(win_x, win_y)` in the video window, is over the
/// video area last placed (the badge then stays up).
pub fn pointer_in_area(win_x: i32, win_y: i32, last_area: Option<(i32, i32, u32, u32)>) -> (r: bool)
    ensures
        r == (match last_area {
            Some((_, _, w, h)) => win_x >= 0 && win_y >= 0 && win_x < w && win_y < h,
            None => false,
        }),
{
    match last_area {
        Some((_, _, w, h)) => win_x >= 0 && win_y >= 0 && (win_x as u32) < w && (win_y as u32) < h,
        None => false,
    }
}

/// Channel `id` differs from the current one (false before the first state).
pub open spec fn channel_changed(s: PlaybackState, id: Seq<char>) -> bool {
    s.current_channel_id matches Some(c) && c@ != id
}

/// A pre-resolved URL usable now.
pub open spec fn usable_resolved(u: Option<String>, fresh: bool) -> Option<Seq<char>> {
    match u {
        Some(x) => if x@.len() > 0 && fresh {
            Some(x@)
        } else {
            None
        },
        None => None,
    }
}

fn usable_resolved_exec(u: &Option<String>, fresh: bool) -> (r: Option<String>)
    ensures
        opt_view(r) == usable_resolved(*u, fresh),
{
    match u {
        Some(x) => if x.as_str().unicode_len() > 0 && fresh {
            Some(x.clone())
        } else {
            None
        },
        None => None,
    }
}

impl ControlsState {
    /// Quality "Auto", captions off, full volume, menus closed.
    pub fn new() -> (r: Self)
        ensures
            r.quality_idx == 0,
            !r.captions_on,
            r.volume == 100,
            r.sub_label@ == "Off"@,
            r.audio_label@ == "\u{2014}"@,
            !r.captions_open && !r.audio_open && !r.quality_open,
            !r.show_all_sub_langs,
    {
        ControlsState {
            quality_idx: 0,
            captions_on: false,
            volume: 100,
            sub_label: string_of("Off"),
            audio_label: string_of("\u{2014}"),
            captions_open: false,
            audio_open: false,
            quality_open: false,
            show_all_sub_langs: false,
        }
    }

    /// Captions set to track `id` (`None`: off), given the tracks of the
    /// captions menu: the button shows the track's label ("On" for an
    /// unlisted track, "Off" when off).
    pub fn set_sub_track(&mut self, id: Option<i64>, tracks: &Vec<(i64, String)>)
        ensures
            final(self).captions_on == id is Some,
            final(self).sub_label@ == (match id {
                Some(sid) => match label_of(pairs_view(tracks@), sid) {
                    Some(l) => l,
                    None => "On"@,
                },
                None => "Off"@,
            }),
            final(self).quality_idx == old(self).quality_idx,
            final(self).volume == old(self).volume,
            final(self).audio_label == old(self).audio_label,
            final(self).captions_open == old(self).captions_open,
            final(self).audio_open == old(self).audio_open,
            final(self).quality_open == old(self).quality_open,
            final(self).show_all_sub_langs == old(self).show_all_sub_langs,
    {
        self.captions_on = id.is_some();
        self.sub_label = match id {
            Some(sid) => match find_label(tracks, sid) {
                Some(l) => l,
                None => string_of("On"),
            },
            None => string_of("Off"),
        };
    }

    /// Audio set to track `id`, given the tracks of the audio menu: the
    /// button shows the track's label (empty for an unlisted track).
    pub fn set_audio_track(&mut self, id: i64, tracks: &Vec<(i64, String)>)
        ensures
            final(self).audio_label@ == (match label_of(pairs_view(tracks@), id) {
                Some(l) => l,
                None => Seq::<char>::empty(),
            }),
            final(self).quality_idx == old(self).quality_idx,
            final(self).captions_on == old(self).captions_on,
            final(self).volume == old(self).volume,
            final(self).sub_label == old(self).sub_label,
            final(self).captions_open == old(self).captions_open,
            final(self).audio_open == old(self).audio_open,
            final(self).quality_open == old(self).quality_open,
            final(self).show_all_sub_langs == old(self).show_all_sub_langs,
    {
        self.audio_label = match find_label(tracks, id) {
            Some(l) => l,
            None => String::new(),
        };
    }

    /// The mute button: silence a playing player, restore full volume
    /// on a silent one. Returns the new volume.
    pub fn toggle_mute(&mut self) -> (v: i64)
        ensures
            v == (if old(self).volume > 0 { 0i64 } else { 100i64 }),
            final(self).volume == v,
    {
        let v: i64 = if self.volume > 0 {
            0
        } else {
            100
        };
        self.volume = v;
        v
    }

    /// The volume slider moved to `v` (rounded by the caller): kept
    /// within 0..=100.
    pub fn set_volume(&mut self, v: i64) -> (r: i64)
        ensures
            r == (if v < 0 { 0 } else if v > 100 { 100 } else { v }),
            final(self).volume == r,
    {
        let r: i64 = if v < 0 {
            0
        } else if v > 100 {
            100
        } else {
            v
        };
        self.volume = r;
        r
    }

    /// A button of the control bar asks for menu `kind`. When the popup
    /// already shows that menu (`popup_visible`, `popup_kind`) it closes
    /// and all menus are marked closed (returns false); otherwise the
    /// menu opens and is marked open (returns true).
    pub fn toggle_popup(&mut self, kind: MenuKind, popup_visible: bool, popup_kind: MenuKind) -> (open: bool)
        ensures
            open == !(popup_visible && popup_kind == kind),
            final(self).captions_open == (open && kind == MenuKind::Captions),
            final(self).audio_open == (open && kind == MenuKind::Audio),
            final(self).quality_open == (open && kind == MenuKind::Quality),
            final(self).quality_idx == old(self).quality_idx,
            final(self).captions_on == old(self).captions_on,
            final(self).volume == old(self).volume,
            final(self).sub_label == old(self).sub_label,
            final(self).audio_label == old(self).audio_label,
            final(self).show_all_sub_langs == old(self).show_all_sub_langs,
    {
        let same = match (popup_kind, kind) {
            (MenuKind::Captions, MenuKind::Captions) => true,
            (MenuKind::Audio, MenuKind::Audio) => true,
            (MenuKind::Quality, MenuKind::Quality) => true,
            _ => false,
        };
        if popup_visible && same {
            self.captions_open = false;
            self.audio_open = false;
            self.quality_open = false;
            return false;
        }
        self.captions_open = match kind {
            MenuKind::Captions => true,
            _ => false,
        };
        self.audio_open = match kind {
            MenuKind::Audio => true,
            _ => false,
        };
        self.quality_open = match kind {
            MenuKind::Quality => true,
            _ => false,
        };
        true
    }
}

impl LayoutState {
    /// Nothing placed yet, chat open.
    pub fn new() -> (r: Self)
        ensures
            r.control_bar_y == 0,
            r.control_bar_right == 0,
            r.last_area is None,
            !r.video_hidden,
            r.chat_open,
    {
        LayoutState { control_bar_y: 0, control_bar_right: 0, last_area: None, video_hidden: false, chat_open: true }
    }

    /// The chat sidebar opened or closed: the next layout resizes the video.
    pub fn set_chat_open(&mut self, open: bool)
        ensures
            final(self).chat_open == open,
            final(self).last_area is None,
            final(self).video_hidden == old(self).video_hidden,
            final(self).control_bar_y == old(self).control_bar_y,
            final(self).control_bar_right == old(self).control_bar_right,
    {
        self.chat_open = open;
        self.last_area = None;
    }

    /// A modal opened (`hidden`) or closed: the video window moves away
    /// or back, and the next layout places it again.
    pub fn set_video_hidden(&mut self, hidden: bool)
        ensures
            final(self).video_hidden == hidden,
            final(self).last_area is None,
            final(self).chat_open == old(self).chat_open,
            final(self).control_bar_y == old(self).control_bar_y,
            final(self).control_bar_right == old(self).control_bar_right,
    {
        self.video_hidden = hidden;
        self.last_area = None;
    }

    /// Place the video window at `(x, y, width, height)`. Returns whether
    /// the geometry changed (move the window and the backup) and whether
    /// its size changed (resynchronise audio and video with a seek).
    pub fn apply_geometry(&mut self, x: i32, y: i32, width: u32, height: u32) -> (r: (bool, bool))
        ensures
            r.0 == (old(self).last_area != Some((x, y, width, height))),
            r.1 == (r.0 && match old(self).last_area {
                Some((ox, oy, ow, oh)) => ow != width || oh != height,
                None => true,
            }),
            final(self).last_area == Some((x, y, width, height)),
            final(self).video_hidden == old(self).video_hidden,
            final(self).chat_open == old(self).chat_open,
            final(self).control_bar_y == old(self).control_bar_y,
            final(self).control_bar_right == old(self).control_bar_right,
    {
        let changed = match self.last_area {
            Some((ox, oy, ow, oh)) => !(ox == x && oy == y && ow == width && oh == height),
            None => true,
        };
        if !changed {
            return (false, false);
        }
        let size_changed = match self.last_area {
            Some((_, _, ow, oh)) => ow != width || oh != height,
            None => true,
        };
        self.last_area = Some((x, y, width, height));
        (true, size_changed)
    }
}


/// The outcome of a menu selection for the caller.
pub struct MenuOutcome {
    /// What the selection asked for.
    pub action: MenuAction,
    /// Quality switch: yt-dlp format for the main player's reload.
    pub quality_format: Option<&'static str>,
    /// Quality switch: show the backup (seeking it to `seek_ms` first).
    pub show_backup: bool,
    pub seek_ms: Option<i64>,
    /// The captions menu must be reopened (list of languages toggled);
    /// otherwise the popup closes.
    pub reopen_captions: bool,
}

impl<B> PlayerView<B> {
    /// The invariant: the memory cache's own.
    pub open spec fn wf(&self) -> bool {
        self.memory_cache.wf()
    }

    /// A player with `backup` as its backup player, nothing loaded, and a
    /// memory cache for one previous channel.
    pub fn new(backup: Option<B>) -> (r: Self)
        ensures
            r.wf(),
            r.backup == backup,
            r.memory_cache.entries_view().len() == 0,
            r.memory_cache.capacity_view() == DEFAULT_MEMORY_CAPACITY,
            r.playback.current_url@ == Seq::<char>::empty(),
            r.playback.current_video_id is None,
            r.playback.queued_next_id is None,
            r.playback.last_observed_video_id is None,
            r.playback.current_channel_id is None,
            r.playback.title@ == Seq::<char>::empty(),
            r.playback.published_at is None,
            r.playback.cache_stall_since is None,
            !r.playback.using_backup,
            r.playback.backup_since is None,
            r.playback.loading_until is None,
            r.playback.loading_for_video is None,
            r.playback.loading_pre_path is None,
            r.playback.loading_pre_path_backup is None,
            r.playback.switch_arm_at is None,
            !r.playback.main_first_frame_ready,
            !r.playback.pending_backup_reveal,
            r.controls.quality_idx == 0,
            !r.controls.captions_on,
            r.controls.volume == 100,
            r.controls.sub_label@ == "Off"@,
            r.controls.audio_label@ == "\u{2014}"@,
            !r.controls.captions_open && !r.controls.audio_open && !r.controls.quality_open,
            !r.controls.show_all_sub_langs,
            r.layout.control_bar_y == 0,
            r.layout.control_bar_right == 0,
            r.layout.last_area is None,
            !r.layout.video_hidden,
            r.layout.chat_open,
    {
        PlayerView {
            playback: PlaybackState::new(),
            controls: ControlsState::new(),
            layout: LayoutState::new(),
            backup,
            memory_cache: MemoryCache::new(DEFAULT_MEMORY_CAPACITY),
        }
    }

    /// How a state for channel `channel_id` changes the channel.
    pub fn channel_switch_plan(&self, channel_id: &str) -> (r: SwitchPlan)
        requires
            self.wf(),
        ensures
            r == (if !channel_changed(self.playback, channel_id@) {
                SwitchPlan::Keep
            } else if ids_of(self.memory_cache.entries_view()).contains(channel_id@) {
                SwitchPlan::FromCache
            } else if self.backup is Some {
                SwitchPlan::Fresh
            } else {
                SwitchPlan::NoBackup
            }),
    {
        let changed = match &self.playback.current_channel_id {
            Some(c) => !crate::text::str_eq(c.as_str(), channel_id),
            None => false,
        };
        if !changed {
            SwitchPlan::Keep
        } else if self.memory_cache.contains(channel_id) {
            SwitchPlan::FromCache
        } else if self.backup.is_some() {
            SwitchPlan::Fresh
        } else {
            SwitchPlan::NoBackup
        }
    }

    /// Switch to channel `channel_id` at `now_ms`. On a channel change the
    /// new channel's parked backup is taken out of the memory cache (it
    /// becomes the visible source at once: returns true) or, if it was
    /// not parked, `fresh` replaces the backup (the caller makes it only
    /// for `SwitchPlan::Fresh`); the previous backup, frozen by the
    /// caller, is parked under the previous channel. The very first
    /// state only records the channel.
    pub fn switch_channel(&mut self, channel_id: &str, fresh: Option<B>, now_ms: u64) -> (took_from_cache: bool)
        requires
            old(self).wf(),
            fresh is Some ==> channel_changed(old(self).playback, channel_id@)
                && !ids_of(old(self).memory_cache.entries_view()).contains(channel_id@)
                && old(self).backup is Some,
        ensures
            final(self).wf(),
            final(self).controls == old(self).controls,
            final(self).layout == old(self).layout,
            final(self).memory_cache.capacity_view() == old(self).memory_cache.capacity_view(),
            ({
                let s = old(self).playback;
                let changed = channel_changed(s, channel_id@);
                let entries = old(self).memory_cache.entries_view();
                let hit = index_of_id(entries, channel_id@);
                let rest = without_id(entries, channel_id@);
                let outgoing = if hit is Some || old(self).backup is Some {
                    old(self).backup
                } else {
                    None
                };
                &&& took_from_cache == (changed && hit is Some)
                &&& opt_view(final(self).playback.current_channel_id) == (if changed || s.current_channel_id is None {
                    Some(channel_id@)
                } else {
                    opt_view(s.current_channel_id)
                })
                &&& (!changed ==> {
                    &&& final(self).backup == old(self).backup
                    &&& final(self).memory_cache.entries_view() == entries
                })
                &&& (changed ==> {
                    &&& final(self).backup == (match hit {
                        Some(i) => Some(entries[i].backup),
                        None => if old(self).backup is Some { fresh } else { None },
                    })
                    &&& final(self).memory_cache.entries_view() == (match outgoing {
                        Some(b) => pushed(rest, MemorizedChannel { channel_id: s.current_channel_id->0, backup: b }, old(self).memory_cache.capacity_view()),
                        None => rest,
                    })
                })
                &&& (took_from_cache ==> {
                    &&& final(self).playback.using_backup
                    &&& final(self).playback.cache_stall_since is None
                    &&& final(self).playback.backup_since == Some(now_ms)
                    &&& !final(self).playback.main_first_frame_ready
                })
                &&& (!took_from_cache ==> {
                    &&& final(self).playback.using_backup == s.using_backup
                    &&& final(self).playback.cache_stall_since == s.cache_stall_since
                    &&& final(self).playback.backup_since == s.backup_since
                    &&& final(self).playback.main_first_frame_ready == s.main_first_frame_ready
                })
                &&& final(self).playback.current_video_id == s.current_video_id
                &&& final(self).playback.queued_next_id == s.queued_next_id
                &&& final(self).playback.loading_for_video == s.loading_for_video
                &&& final(self).playback.loading_until == s.loading_until
                &&& final(self).playback.current_url == s.current_url
                &&& final(self).playback.title == s.title
                &&& final(self).playback.published_at == s.published_at
                &&& final(self).playback.last_observed_video_id == s.last_observed_video_id
                &&& final(self).playback.loading_pre_path == s.loading_pre_path
                &&& final(self).playback.loading_pre_path_backup == s.loading_pre_path_backup
                &&& final(self).playback.switch_arm_at == s.switch_arm_at
                &&& final(self).playback.pending_backup_reveal == s.pending_backup_reveal
            }),
    {
        let plan = self.channel_switch_plan(channel_id);
        if self.playback.current_channel_id.is_none() {
            self.playback.current_channel_id = Some(string_of(channel_id));
            return false;
        }
        match plan {
            SwitchPlan::Keep => {
                return false;
            },
            _ => {},
        }
        let ghost entries = self.memory_cache.entries_view();
        let cached = self.memory_cache.take(channel_id);
        let took = cached.is_some();
        let outgoing = match cached {
            Some(entry) => {
                let mut incoming = Some(entry.backup);
                std::mem::swap(&mut incoming, &mut self.backup);
                incoming
            },
            None => if self.backup.is_some() {
                let mut incoming = fresh;
                std::mem::swap(&mut incoming, &mut self.backup);
                incoming
            } else {
                None
            },
        };
        let mut prev = Some(string_of(channel_id));
        std::mem::swap(&mut prev, &mut self.playback.current_channel_id);
        match (prev, outgoing) {
            (Some(prev_id), Some(b)) => {
                self.memory_cache.push(MemorizedChannel { channel_id: prev_id, backup: b });
            },
            _ => {},
        }
        if took {
            self.playback.using_backup = true;
            self.playback.cache_stall_since = None;
            self.playback.backup_since = Some(now_ms);
            self.playback.main_first_frame_ready = false;
        }
        took
    }

    /// The rest of a received state once the channel is switched
    /// (`took_from_cache`: the backup came from the memory cache and is
    /// already playing). `main_path` and `backup_path` are the players'
    /// `path` properties (`None` when unreadable, or without a backup).
    /// A new video is recorded, the loading screen re-armed for it if it
    /// was armed, the backup loaded (hidden until its first frame) and
    /// the main player reloaded unless its path already holds the video;
    /// then the next video is prefetched once.
    pub fn apply_video(
        &mut self,
        st: &TvStateInfo,
        now_ms: u64,
        took_from_cache: bool,
        main_path: Option<String>,
        backup_path: Option<String>,
    ) -> (r: VideoPlan)
        requires
            old(self).wf(),
            now_ms <= u64::MAX - LOADING_DEADLINE_MS,
        ensures
            final(self).wf(),
            final(self).backup == old(self).backup,
            final(self).memory_cache == old(self).memory_cache,
            final(self).controls == old(self).controls,
            final(self).layout == old(self).layout,
            ({
                let s = old(self).playback;
                let f = final(self).playback;
                let changed = opt_view(s.current_video_id) != Some(st.video_id@);
                let path = match main_path {
                    Some(p) => p@,
                    None => Seq::<char>::empty(),
                };
                let reload = changed && !str_contains_spec(path, st.video_id@);
                let main_res = usable_resolved(st.resolved_url, st.resolved_url_fresh);
                &&& r.video_changed == changed
                &&& (changed ==> {
                    &&& f.current_url@ == watch_url_spec(st.video_id@)
                    &&& opt_view(f.current_video_id) == Some(st.video_id@)
                    &&& f.title@ == st.title@
                    &&& opt_view(f.published_at) == opt_view(st.published_at)
                    &&& !f.main_first_frame_ready
                    &&& (s.loading_until is Some ==> {
                        &&& f.loading_until == Some((now_ms + LOADING_DEADLINE_MS) as u64)
                        &&& opt_view(f.loading_for_video) == Some(st.video_id@)
                        &&& opt_view(f.loading_pre_path) == (if s.loading_pre_path is None {
                            opt_view(main_path)
                        } else {
                            opt_view(s.loading_pre_path)
                        })
                        &&& opt_view(f.loading_pre_path_backup) == (if s.loading_pre_path_backup is None {
                            opt_view(backup_path)
                        } else {
                            opt_view(s.loading_pre_path_backup)
                        })
                    })
                    &&& (s.loading_until is None ==> {
                        &&& f.loading_until == s.loading_until
                        &&& f.loading_for_video == s.loading_for_video
                        &&& f.loading_pre_path == s.loading_pre_path
                        &&& f.loading_pre_path_backup == s.loading_pre_path_backup
                    })
                    &&& r.load_backup == (!took_from_cache && old(self).backup is Some)
                    &&& f.pending_backup_reveal == (r.load_backup || s.pending_backup_reveal)
                    &&& (r.load_backup ==> opt_view(r.backup_resolved) == usable_resolved(st.resolved_url_lq, st.resolved_url_fresh))
                    &&& opt_view(r.main_load) == (if reload {
                        Some(match main_res {
                            Some(u) => u,
                            None => watch_url_spec(st.video_id@),
                        })
                    } else {
                        None
                    })
                    &&& r.main_ytdl == (main_res is None)
                })
                &&& (!changed ==> {
                    &&& f.current_url == s.current_url
                    &&& f.current_video_id == s.current_video_id
                    &&& f.title == s.title
                    &&& f.published_at == s.published_at
                    &&& f.main_first_frame_ready == s.main_first_frame_ready
                    &&& f.loading_until == s.loading_until
                    &&& f.loading_for_video == s.loading_for_video
                    &&& f.loading_pre_path == s.loading_pre_path
                    &&& f.loading_pre_path_backup == s.loading_pre_path_backup
                    &&& f.pending_backup_reveal == s.pending_backup_reveal
                    &&& !r.load_backup
                    &&& r.main_load is None
                })
                &&& ({
                    let queued = if changed { None } else { opt_view(s.queued_next_id) };
                    let prefetch = match st.next_video_id {
                        Some(n) => queued != Some(n@) && opt_view(f.current_video_id) != Some(n@),
                        None => false,
                    };
                    &&& (prefetch ==> {
                        &&& opt_view(r.prefetch_url) == Some(watch_url_spec(st.next_video_id->0@))
                        &&& opt_view(f.queued_next_id) == Some(st.next_video_id->0@)
                    })
                    &&& (!prefetch ==> {
                        &&& r.prefetch_url is None
                        &&& opt_view(f.queued_next_id) == queued
                    })
                })
                &&& f.current_channel_id == s.current_channel_id
                &&& f.using_backup == s.using_backup
                &&& f.cache_stall_since == s.cache_stall_since
                &&& f.backup_since == s.backup_since
                &&& f.last_observed_video_id == s.last_observed_video_id
                &&& f.switch_arm_at == s.switch_arm_at
            }),
    {
        let current = Some(st.video_id.clone());
        let changed = !opt_str_eq(&self.playback.current_video_id, &current);
        let mut plan = VideoPlan {
            video_changed: changed,
            load_backup: false,
            backup_resolved: None,
            main_load: None,
            main_ytdl: false,
            prefetch_url: None,
        };
        if changed {
            let url = watch_url(st.video_id.as_str());
            self.playback.current_url = url.clone();
            self.playback.current_video_id = current;
            self.playback.title = st.title.clone();
            self.playback.published_at = st.published_at.clone();
            self.playback.queued_next_id = None;
            self.playback.main_first_frame_ready = false;
            if self.playback.loading_until.is_some() {
                self.playback.loading_until = Some(now_ms + LOADING_DEADLINE_MS);
                self.playback.loading_for_video = Some(st.video_id.clone());
                if self.playback.loading_pre_path.is_none() {
                    self.playback.loading_pre_path = main_path.clone();
                }
                if self.playback.loading_pre_path_backup.is_none() {
                    self.playback.loading_pre_path_backup = backup_path;
                }
            }
            if !took_from_cache && self.backup.is_some() {
                plan.load_backup = true;
                plan.backup_resolved = usable_resolved_exec(&st.resolved_url_lq, st.resolved_url_fresh);
                self.playback.pending_backup_reveal = true;
            }
            let main_resolved = usable_resolved_exec(&st.resolved_url, st.resolved_url_fresh);
            plan.main_ytdl = main_resolved.is_none();
            let holds = match &main_path {
                Some(p) => str_contains(p.as_str(), st.video_id.as_str()),
                None => str_contains("", st.video_id.as_str()),
            };
            proof {
                reveal_strlit("");
                assert(""@ =~= Seq::<char>::empty());
            }
            if !holds {
                plan.main_load = match main_resolved {
                    Some(u) => Some(u),
                    None => Some(url),
                };
            }
        }
        if let Some(next) = &st.next_video_id {
            let next_opt = Some(next.clone());
            if !opt_str_eq(&self.playback.queued_next_id, &next_opt)
                && !opt_str_eq(&self.playback.current_video_id, &next_opt) {
                plan.prefetch_url = Some(watch_url(next.as_str()));
                self.playback.queued_next_id = next_opt;
            }
        }
        plan
    }

    /// A channel switch was clicked at `now_ms`: remember the players'
    /// paths (`None` when unreadable or without a backup) so the loading
    /// screen lifts once one of them shows something else.
    pub fn start_switch(&mut self, now_ms: u64, main_path: Option<String>, backup_path: Option<String>)
        requires
            old(self).wf(),
        ensures
            final(self).wf(),
            final(self).playback.switch_arm_at == Some(now_ms),
            final(self).playback.loading_pre_path == main_path,
            final(self).playback.loading_pre_path_backup == backup_path,
            final(self).backup == old(self).backup,
            final(self).memory_cache == old(self).memory_cache,
            final(self).controls == old(self).controls,
            final(self).layout == old(self).layout,
            final(self).playback.current_video_id == old(self).playback.current_video_id,
            final(self).playback.current_channel_id == old(self).playback.current_channel_id,
            final(self).playback.using_backup == old(self).playback.using_backup,
            final(self).playback.loading_for_video == old(self).playback.loading_for_video,
            final(self).playback.loading_until == old(self).playback.loading_until,
            final(self).playback.pending_backup_reveal == old(self).playback.pending_backup_reveal,
            final(self).playback.main_first_frame_ready == old(self).playback.main_first_frame_ready,
    {
        self.playback.switch_arm_at = Some(now_ms);
        self.playback.loading_pre_path = main_path;
        self.playback.loading_pre_path_backup = backup_path;
    }

    /// The server went away at `now_ms`: forget the video and the channel
    /// (so the next state switches afresh) and arm the loading screen.
    pub fn stop_playback(&mut self, now_ms: u64)
        requires
            old(self).wf(),
            now_ms <= u64::MAX - STOPPED_LOADING_MS,
        ensures
            final(self).wf(),
            final(self).playback.current_video_id is None,
            final(self).playback.current_channel_id is None,
            !final(self).playback.main_first_frame_ready,
            final(self).playback.loading_until == Some((now_ms + STOPPED_LOADING_MS) as u64),
            final(self).playback.loading_for_video is None,
            final(self).backup == old(self).backup,
            final(self).memory_cache == old(self).memory_cache,
            final(self).controls == old(self).controls,
            final(self).layout == old(self).layout,
            final(self).playback.using_backup == old(self).playback.using_backup,
            final(self).playback.queued_next_id == old(self).playback.queued_next_id,
            final(self).playback.pending_backup_reveal == old(self).playback.pending_backup_reveal,
    {
        self.playback.current_video_id = None;
        self.playback.current_channel_id = None;
        self.playback.main_first_frame_ready = false;
        self.playback.loading_until = Some(now_ms + STOPPED_LOADING_MS);
        self.playback.loading_for_video = None;
    }

    /// Quality `idx` picked at `now_ms`, the main player being at
    /// `saved_pos_ms`: the backup (if any) takes the screen at once,
    /// seeking to the saved position when it is worth it, while the main
    /// player reloads with the returned format. Out-of-range `idx`:
    /// nothing happens (`None`).
    pub fn set_quality(&mut self, idx: usize, now_ms: u64, saved_pos_ms: i64) -> (r: Option<(&'static str, bool, Option<i64>)>)
        requires
            old(self).wf(),
        ensures
            final(self).wf(),
            idx >= QUALITY_COUNT ==> r is None && final(self).controls == old(self).controls
                && final(self).playback == old(self).playback,
            idx < QUALITY_COUNT ==> {
                &&& r matches Some((fmt, show, seek)) && fmt@ == quality_format(idx as int)
                    && show == old(self).backup is Some
                    && seek == (if show && saved_pos_ms > MIN_SEEK_POS_MS { Some(saved_pos_ms) } else { None })
                &&& final(self).controls.quality_idx == idx
                &&& (old(self).backup is Some ==> final(self).playback.using_backup
                    && final(self).playback.backup_since == Some(now_ms))
                &&& (old(self).backup is None ==> final(self).playback == old(self).playback)
            },
            final(self).backup == old(self).backup,
            final(self).memory_cache == old(self).memory_cache,
            final(self).layout == old(self).layout,
            final(self).controls.captions_on == old(self).controls.captions_on,
            final(self).controls.sub_label == old(self).controls.sub_label,
            final(self).controls.audio_label == old(self).controls.audio_label,
            final(self).controls.show_all_sub_langs == old(self).controls.show_all_sub_langs,
            final(self).playback.cache_stall_since == old(self).playback.cache_stall_since,
            final(self).playback.current_video_id == old(self).playback.current_video_id,
    {
        if idx >= QUALITY_COUNT {
            return None;
        }
        self.controls.quality_idx = idx;
        let (_, fmt) = quality(idx);
        let show = self.backup.is_some();
        let mut seek: Option<i64> = None;
        if show {
            if saved_pos_ms > MIN_SEEK_POS_MS {
                seek = Some(saved_pos_ms);
            }
            self.playback.using_backup = true;
            self.playback.backup_since = Some(now_ms);
        }
        Some((fmt, show, seek))
    }

    /// The memory capacity setting is the number of channels one can zap
    /// to instantly, the current one included: the cache keeps one fewer.
    pub fn set_memory_capacity(&mut self, total: u8)
        requires
            old(self).wf(),
        ensures
            final(self).wf(),
            final(self).memory_cache.capacity_view() == (if total == 0 { 0 } else { total - 1 }),
            final(self).memory_cache.entries_view() == truncate(
                old(self).memory_cache.entries_view(),
                final(self).memory_cache.capacity_view(),
            ),
            final(self).backup == old(self).backup,
            final(self).playback == old(self).playback,
    {
        let cap: usize = (total as usize).saturating_sub(1);
        self.memory_cache.set_capacity(cap);
    }

    /// The notice of the parked channels, sent after each change of the
    /// memory cache.
    pub fn memory_changed(&self) -> (r: MemoryChanged)
        ensures
            r.0@.map_values(|s: String| s@) == ids_of(self.memory_cache.entries_view()),
    {
        let ids = self.memory_cache.channel_ids();
        assert(ids@.map_values(|s: String| s@) =~= ids_of(self.memory_cache.entries_view()));
        MemoryChanged(ids)
    }

    /// Drop every parked channel.
    pub fn purge_memory_cache(&mut self)
        requires
            old(self).wf(),
        ensures
            final(self).wf(),
            final(self).memory_cache.entries_view().len() == 0,
            final(self).memory_cache.capacity_view() == old(self).memory_cache.capacity_view(),
            final(self).backup == old(self).backup,
            final(self).playback == old(self).playback,
    {
        self.memory_cache.clear();
    }

    /// Warm channel `channel_id` in the background (hovered in the
    /// sidebar): worth it unless it is the current channel, is already
    /// parked, or the cache is disabled (capacity 0).
    pub fn should_preload(&self, channel_id: &str) -> (r: bool)
        requires
            self.wf(),
        ensures
            r == (opt_view(self.playback.current_channel_id) != Some(channel_id@)
                && !ids_of(self.memory_cache.entries_view()).contains(channel_id@)
                && self.memory_cache.capacity_view() != 0),
    {
        let current = match &self.playback.current_channel_id {
            Some(c) => crate::text::str_eq(c.as_str(), channel_id),
            None => false,
        };
        !current && !self.memory_cache.contains(channel_id) && self.memory_cache.capacity() != 0
    }

    /// Park a preloaded (frozen) backup for `channel_id`.
    pub fn park_preloaded(&mut self, channel_id: String, backup: B)
        requires
            old(self).wf(),
        ensures
            final(self).wf(),
            final(self).memory_cache.capacity_view() == old(self).memory_cache.capacity_view(),
            final(self).memory_cache.entries_view() == pushed(
                old(self).memory_cache.entries_view(),
                MemorizedChannel { channel_id, backup },
                old(self).memory_cache.capacity_view(),
            ),
            final(self).backup == old(self).backup,
            final(self).playback == old(self).playback,
    {
        self.memory_cache.push(MemorizedChannel { channel_id, backup });
    }

    /// Geometry for a preloaded backup: off-screen, with the size of the
    /// video area (at least 1 x 1), if the video was placed yet.
    pub fn preload_geometry(&self) -> (r: Option<(i32, i32, u32, u32)>)
        ensures
            r == (match self.layout.last_area {
                Some((x, y, w, h)) => Some((-10000i32, -10000i32, if w >= 1 { w } else { 1u32 }, if h >= 1 { h } else { 1u32 })),
                None => None,
            }),
    {
        match self.layout.last_area {
            Some((_, _, w, h)) => Some((-10000, -10000, if w >= 1 { w } else { 1 }, if h >= 1 { h } else { 1 })),
            None => None,
        }
    }

    /// A menu row was picked (`ev`), given the captions menu's tracks
    /// `subs`, the audio menu's tracks `audio`, the time and the main
    /// player's position: apply what it asks (see `menu_action_spec`).
    /// Picking in the captions menu returns to the compact list of
    /// languages, except for the toggle, which flips it and reopens the
    /// menu; every other pick closes the menus.
    pub fn handle_menu_event(
        &mut self,
        ev: MenuEvent,
        subs: &Vec<(i64, String)>,
        audio: &Vec<(i64, String)>,
        now_ms: u64,
        saved_pos_ms: i64,
    ) -> (r: MenuOutcome)
        requires
            old(self).wf(),
        ensures
            final(self).wf(),
            r.action == menu_action_spec(ev, pairs_view(subs@), pairs_view(audio@)),
            final(self).backup == old(self).backup,
            final(self).memory_cache == old(self).memory_cache,
            final(self).layout == old(self).layout,
            r.reopen_captions == (r.action == MenuAction::ToggleMoreLangs),
            r.action == MenuAction::ToggleMoreLangs ==> final(self).controls.show_all_sub_langs
                == !old(self).controls.show_all_sub_langs && !final(self).controls.captions_open,
            r.action != MenuAction::ToggleMoreLangs ==> !final(self).controls.captions_open
                && !final(self).controls.audio_open && !final(self).controls.quality_open,
            (ev matches MenuEvent::Selected { kind: MenuKind::Captions, .. }) && r.action
                != MenuAction::ToggleMoreLangs ==> !final(self).controls.show_all_sub_langs,
            r.action matches MenuAction::SetSubTrack(id) ==> final(self).controls.captions_on == id is Some
                && final(self).controls.sub_label@ == (match id {
                    Some(sid) => match label_of(pairs_view(subs@), sid) {
                        Some(l) => l,
                        None => "On"@,
                    },
                    None => "Off"@,
                }),
            r.action matches MenuAction::SetAudioTrack(id) ==> final(self).controls.audio_label@ == (match label_of(pairs_view(audio@), id) {
                Some(l) => l,
                None => Seq::<char>::empty(),
            }),
            r.action matches MenuAction::SetQuality(idx) ==> {
                &&& (idx < QUALITY_COUNT ==> {
                    &&& final(self).controls.quality_idx == idx
                    &&& (r.quality_format matches Some(f) && f@ == quality_format(idx as int))
                    &&& r.show_backup == old(self).backup is Some
                })
                &&& (idx >= QUALITY_COUNT ==> r.quality_format is None && final(self).controls.quality_idx
                    == old(self).controls.quality_idx)
            },
            !(r.action is SetQuality) ==> r.quality_format is None && !r.show_backup && r.seek_ms is None
                && final(self).playback == old(self).playback,
    {
        let action = menu_action(ev, subs, audio);
        let mut out = MenuOutcome {
            action,
            quality_format: None,
            show_backup: false,
            seek_ms: None,
            reopen_captions: false,
        };
        match action {
            MenuAction::SetQuality(idx) => {
                if let Some((fmt, show, seek)) = self.set_quality(idx, now_ms, saved_pos_ms) {
                    out.quality_format = Some(fmt);
                    out.show_backup = show;
                    out.seek_ms = seek;
                }
            },
            MenuAction::SetSubTrack(id) => {
                self.controls.set_sub_track(id, subs);
                self.controls.show_all_sub_langs = false;
            },
            MenuAction::ToggleMoreLangs => {
                self.controls.show_all_sub_langs = !self.controls.show_all_sub_langs;
                self.controls.captions_open = false;
                out.reopen_captions = true;
                return out;
            },
            MenuAction::SetAudioTrack(id) => {
                self.controls.set_audio_track(id, audio);
            },
            MenuAction::Nothing => {
                match ev {
                    MenuEvent::Selected { kind: MenuKind::Captions, .. } => {
                        self.controls.show_all_sub_langs = false;
                    },
                    _ => {},
                }
            },
        }
        self.controls.captions_open = false;
        self.controls.audio_open = false;
        self.controls.quality_open = false;
        out
    }

    /// Handle a state received from the server at `now_ms`: switch the
    /// channel (`fresh`: the new backup player, made by the caller only
    /// for `SwitchPlan::Fresh`; the outgoing backup was frozen by the
    /// caller) and then apply the video (see `switch_channel` and
    /// `apply_video`). Returns whether the backup came from the memory
    /// cache (the caller then places, thaws and shows it) and the plan.
    pub fn load_state(
        &mut self,
        st: &TvStateInfo,
        now_ms: u64,
        fresh: Option<B>,
        main_path: Option<String>,
        backup_path: Option<String>,
    ) -> (r: (bool, VideoPlan))
        requires
            old(self).wf(),
            now_ms <= u64::MAX - LOADING_DEADLINE_MS,
            fresh is Some ==> channel_changed(old(self).playback, st.channel_id@)
                && !ids_of(old(self).memory_cache.entries_view()).contains(st.channel_id@)
                && old(self).backup is Some,
        ensures
            final(self).wf(),
            final(self).memory_cache.capacity_view() == old(self).memory_cache.capacity_view(),
            final(self).controls == old(self).controls,
            final(self).layout == old(self).layout,
            // The channel: taken from the memory cache when parked there,
            // the outgoing one parked in its place.
            ({
                let s = old(self).playback;
                let changed = channel_changed(s, st.channel_id@);
                let entries = old(self).memory_cache.entries_view();
                let hit = index_of_id(entries, st.channel_id@);
                let rest = without_id(entries, st.channel_id@);
                let outgoing = if hit is Some || old(self).backup is Some {
                    old(self).backup
                } else {
                    None
                };
                &&& r.0 == (changed && hit is Some)
                &&& opt_view(final(self).playback.current_channel_id) == (if changed || s.current_channel_id is None {
                    Some(st.channel_id@)
                } else {
                    opt_view(s.current_channel_id)
                })
                &&& (!changed ==> {
                    &&& final(self).backup == old(self).backup
                    &&& final(self).memory_cache.entries_view() == entries
                })
                &&& (changed ==> {
                    &&& final(self).backup == (match hit {
                        Some(i) => Some(entries[i].backup),
                        None => if old(self).backup is Some { fresh } else { None },
                    })
                    &&& final(self).memory_cache.entries_view() == (match outgoing {
                        Some(b) => pushed(rest, MemorizedChannel { channel_id: s.current_channel_id->0, backup: b }, old(self).memory_cache.capacity_view()),
                        None => rest,
                    })
                })
                &&& (r.0 ==> {
                    &&& final(self).playback.using_backup
                    &&& final(self).playback.cache_stall_since is None
                    &&& final(self).playback.backup_since == Some(now_ms)
                })
                &&& (!r.0 ==> {
                    &&& final(self).playback.using_backup == s.using_backup
                    &&& final(self).playback.cache_stall_since == s.cache_stall_since
                    &&& final(self).playback.backup_since == s.backup_since
                })
            }),
            // The video: loaded when it changed, the next one prefetched once.
            ({
                let s = old(self).playback;
                let f = final(self).playback;
                let changed = opt_view(s.current_video_id) != Some(st.video_id@);
                let path = match main_path {
                    Some(p) => p@,
                    None => Seq::<char>::empty(),
                };
                let reload = changed && !str_contains_spec(path, st.video_id@);
                let main_res = usable_resolved(st.resolved_url, st.resolved_url_fresh);
                &&& r.1.video_changed == changed
                &&& opt_view(f.current_video_id) == Some(st.video_id@)
                &&& (changed ==> {
                    &&& f.current_url@ == watch_url_spec(st.video_id@)
                    &&& f.title@ == st.title@
                    &&& opt_view(f.published_at) == opt_view(st.published_at)
                    &&& !f.main_first_frame_ready
                    &&& (s.loading_until is Some ==> {
                        &&& f.loading_until == Some((now_ms + LOADING_DEADLINE_MS) as u64)
                        &&& opt_view(f.loading_for_video) == Some(st.video_id@)
                    })
                    &&& (s.loading_until is None ==> f.loading_until == s.loading_until)
                    &&& r.1.load_backup == (!r.0 && final(self).backup is Some)
                    &&& f.pending_backup_reveal == (r.1.load_backup || s.pending_backup_reveal)
                    &&& (r.1.load_backup ==> opt_view(r.1.backup_resolved) == usable_resolved(st.resolved_url_lq, st.resolved_url_fresh))
                    &&& opt_view(r.1.main_load) == (if reload {
                        Some(match main_res {
                            Some(u) => u,
                            None => watch_url_spec(st.video_id@),
                        })
                    } else {
                        None
                    })
                    &&& r.1.main_ytdl == (main_res is None)
                })
                &&& (!changed ==> {
                    &&& f.current_url == s.current_url
                    &&& f.current_video_id == s.current_video_id
                    &&& f.title == s.title
                    &&& f.published_at == s.published_at
                    &&& f.main_first_frame_ready == (if r.0 { false } else { s.main_first_frame_ready })
                    &&& f.loading_until == s.loading_until
                    &&& f.loading_for_video == s.loading_for_video
                    &&& f.loading_pre_path == s.loading_pre_path
                    &&& f.loading_pre_path_backup == s.loading_pre_path_backup
                    &&& f.pending_backup_reveal == s.pending_backup_reveal
                    &&& !r.1.load_backup
                    &&& r.1.main_load is None
                })
                &&& ({
                    let queued = if changed { None } else { opt_view(s.queued_next_id) };
                    let prefetch = match st.next_video_id {
                        Some(n) => queued != Some(n@) && opt_view(f.current_video_id) != Some(n@),
                        None => false,
                    };
                    &&& (prefetch ==> {
                        &&& opt_view(r.1.prefetch_url) == Some(watch_url_spec(st.next_video_id->0@))
                        &&& opt_view(f.queued_next_id) == Some(st.next_video_id->0@)
                    })
                    &&& (!prefetch ==> {
                        &&& r.1.prefetch_url is None
                        &&& opt_view(f.queued_next_id) == queued
                    })
                })
                &&& f.last_observed_video_id == s.last_observed_video_id
                &&& f.switch_arm_at == s.switch_arm_at
            }),
            // Repeating a state already applied changes nothing and asks
            // for nothing.
            ({
                let s = old(self).playback;
                let repeat = opt_view(s.current_channel_id) == Some(st.channel_id@)
                    && opt_view(s.current_video_id) == Some(st.video_id@)
                    && (st.next_video_id matches Some(n) ==> (opt_view(s.queued_next_id) == Some(n@)
                        || n@ == st.video_id@));
                repeat ==> {
                    &&& !r.0
                    &&& !r.1.video_changed
                    &&& r.1.main_load is None
                    &&& !r.1.load_backup
                    &&& r.1.prefetch_url is None
                    &&& final(self).backup == old(self).backup
                    &&& final(self).memory_cache.entries_view() == old(self).memory_cache.entries_view()
                    &&& opt_view(final(self).playback.current_channel_id) == opt_view(s.current_channel_id)
                    &&& opt_view(final(self).playback.current_video_id) == opt_view(s.current_video_id)
                    &&& opt_view(final(self).playback.queued_next_id) == opt_view(s.queued_next_id)
                    &&& final(self).playback.using_backup == s.using_backup
                }
            }),
    {
        let took = self.switch_channel(st.channel_id.as_str(), fresh, now_ms);
        let plan = self.apply_video(st, now_ms, took, main_path, backup_path);
        (took, plan)
    }

    /// A modal opened: the video window moves away.
    pub fn hide_video(&mut self)
        requires
            old(self).wf(),
        ensures
            final(self).wf(),
            final(self).layout.video_hidden,
            final(self).layout.last_area is None,
            final(self).layout.chat_open == old(self).layout.chat_open,
            final(self).playback == old(self).playback,
    {
        self.layout.set_video_hidden(true);
    }

    /// The modal closed: the video window comes back.
    pub fn show_video(&mut self)
        requires
            old(self).wf(),
        ensures
            final(self).wf(),
            !final(self).layout.video_hidden,
            final(self).layout.last_area is None,
            final(self).layout.chat_open == old(self).layout.chat_open,
            final(self).playback == old(self).playback,
    {
        self.layout.set_video_hidden(false);
    }

    /// The chat sidebar opened or closed.
    pub fn set_chat_open(&mut self, open: bool)
        requires
            old(self).wf(),
        ensures
            final(self).wf(),
            final(self).layout.chat_open == open,
            final(self).layout.last_area is None,
            final(self).layout.video_hidden == old(self).layout.video_hidden,
            final(self).playback == old(self).playback,
    {
        self.layout.set_chat_open(open);
    }

    /// Lay the player out in a viewport of `viewport_w` x `viewport_h`
    /// pixels: the video fills what the sidebar, the chat (when open) and
    /// the bars leave, at least 100 x 100; the menus anchor on the control
    /// bar below it. The switch timer is dropped (the loading overlay is
    /// disabled).
    pub fn render_layout(&mut self, viewport_w: i32, viewport_h: i32, m: &LayoutMetrics) -> (r: RenderPlan)
        requires
            old(self).wf(),
            m.topbar_h + video_h(viewport_h, *m) <= i32::MAX,
            m.sidebar_w + video_w(viewport_w, *m, old(self).layout.chat_open) <= i32::MAX,
        ensures
            final(self).wf(),
            ({
                let w = video_w(viewport_w, *m, old(self).layout.chat_open);
                let h = video_h(viewport_h, *m);
                let (x, y) = if old(self).layout.video_hidden {
                    (-10000i32, -10000i32)
                } else {
                    (m.sidebar_w, m.topbar_h)
                };
                &&& r.area == (x, y, w as u32, h as u32)
                &&& r.geometry_changed == (old(self).layout.last_area != Some(r.area))
                &&& r.size_changed == (r.geometry_changed && match old(self).layout.last_area {
                    Some((ox, oy, ow, oh)) => ow != r.area.2 || oh != r.area.3,
                    None => true,
                })
                &&& final(self).layout.last_area == Some(r.area)
                &&& final(self).layout.control_bar_y == m.topbar_h + h
                &&& final(self).layout.control_bar_right == m.sidebar_w + w
            }),
            r.show_backup == (old(self).playback.using_backup && old(self).backup is Some),
            final(self).playback.switch_arm_at is None,
            final(self).layout.video_hidden == old(self).layout.video_hidden,
            final(self).layout.chat_open == old(self).layout.chat_open,
            final(self).backup == old(self).backup,
            final(self).memory_cache == old(self).memory_cache,
            final(self).controls == old(self).controls,
            final(self).playback.using_backup == old(self).playback.using_backup,
            final(self).playback.current_video_id == old(self).playback.current_video_id,
    {
        self.playback.switch_arm_at = None;
        let chat: i64 = if self.layout.chat_open { m.chat_w as i64 } else { 0 };
        let w0: i64 = viewport_w as i64 - m.sidebar_w as i64 - chat;
        let w: i64 = if w0 < MIN_VIDEO_SIDE { MIN_VIDEO_SIDE } else { w0 };
        let h0: i64 = viewport_h as i64 - m.topbar_h as i64 - m.control_bar_h as i64 - m.infobar_h as i64;
        let h: i64 = if h0 < MIN_VIDEO_SIDE { MIN_VIDEO_SIDE } else { h0 };
        let (x, y) = if self.layout.video_hidden {
            (-10000i32, -10000i32)
        } else {
            (m.sidebar_w, m.topbar_h)
        };
        let area = (x, y, w as u32, h as u32);
        let (changed, size_changed) = self.layout.apply_geometry(x, y, w as u32, h as u32);
        self.layout.control_bar_y = (m.topbar_h as i64 + h) as i32;
        self.layout.control_bar_right = (m.sidebar_w as i64 + w) as i32;
        RenderPlan {
            area,
            geometry_changed: changed,
            size_changed,
            show_backup: self.playback.using_backup && self.backup.is_some(),
        }
    }
}


/// The backup stays on screen at least `SWAP_UP_MIN_MS`: a tick less
/// than that after it became the visible source never swaps back up.
pub proof fn law_swap_timing(s: PlaybackState, inp: PollInput, has_backup: bool, since: u64)
    requires
        s.backup_since == Some(since),
        since <= inp.now_ms,
        inp.now_ms < since + SWAP_UP_MIN_MS,
    ensures
        poll_final(s, inp, has_backup).3 != SwapStep::Up,
{
}

/// The backup only takes over from a main player that is stalled now
/// and was already seen stalled on an earlier tick at least
/// `SWAP_DOWN_STALL_MS` before, and only when a backup exists.
pub proof fn law_swap_down_after_stall(s: PlaybackState, inp: PollInput, has_backup: bool)
    ensures
        poll_final(s, inp, has_backup).3 == SwapStep::Down ==> {
            &&& has_backup
            &&& inp.main_stalled
            &&& poll_mid(s, inp).1 matches Some(t) && t + SWAP_DOWN_STALL_MS <= inp.now_ms
        },
{
}

/// The main player takes back over only when it is not stalled and its
/// first frame of the current video is decoded.
pub proof fn law_swap_up_needs_main_frame(s: PlaybackState, inp: PollInput, has_backup: bool)
    ensures
        poll_final(s, inp, has_backup).3 == SwapStep::Up ==> !inp.main_stalled && poll_mid(s, inp).3,
{
}

/// An auto-advance is reported once: a second tick that reads the same
/// path as the tick that reported it (recording what that tick
/// recorded) reports none.
pub proof fn law_auto_advance_once(s1: PlaybackState, inp1: PollInput, s2: PlaybackState, inp2: PollInput)
    requires
        opt_view(s2.last_observed_video_id) == (if poll_observed_new(s1, inp1) {
            video_id_of(inp1.main_path@)
        } else {
            opt_view(s1.last_observed_video_id)
        }),
        poll_advanced(s1, inp1),
        inp2.main_path@ == inp1.main_path@,
    ensures
        !poll_advanced(s2, inp2),
{
}

/// Zapping back is instant: after switching away from channel `prev`
/// with a backup `b`, the memory cache (of capacity at least one)
/// holds `prev`, so switching back takes its backup from the cache.
pub proof fn law_switch_back_hits_cache<B>(
    entries: Seq<MemorizedChannel<B>>,
    next: Seq<char>,
    prev: String,
    b: B,
    cap: nat,
)
    requires
        cap >= 1,
        prev@ != next,
    ensures
        ids_of(pushed(without_id(entries, next), MemorizedChannel { channel_id: prev, backup: b }, cap)).contains(prev@),
        index_of_id(pushed(without_id(entries, next), MemorizedChannel { channel_id: prev, backup: b }, cap), prev@)
            == Some(0int),
{
    let e = MemorizedChannel { channel_id: prev, backup: b };
    let p = pushed(without_id(entries, next), e, cap);
    assert(p[0] == e);
    assert(ids_of(p)[0] == prev@);
}

/// The loading screen is never lifted while the main player is seeking,
/// idle or stalled, unless the backup is already showing another path:
/// a tick whose main player is not steadily playing a new path keeps
/// the screen up.
pub proof fn law_loading_kept_while_main_unsettled(s: PlaybackState, inp: PollInput, has_backup: bool)
    requires
        inp.main_seeking || inp.main_core_idle || inp.main_stalled || inp.main_path@.len() == 0,
        !(has_backup && inp.backup_playing_different),
    ensures
        !poll_loading_cleared(s, inp, has_backup),
{
}

/// Pre-resolved stream URLs are used only while fresh and not empty: a
/// stale (or empty) URL never reaches the players, which then load the
/// watch URL through ytdl; a fresh non-empty one is used as given.
pub proof fn law_stale_resolved_url_unused(u: Option<String>, fresh: bool)
    ensures
        !fresh ==> usable_resolved(u, fresh) is None,
        u is None ==> usable_resolved(u, fresh) is None,
        (fresh && u is Some && u->0@.len() > 0) ==> usable_resolved(u, fresh) == Some(u->0@),
        usable_resolved(u, fresh) matches Some(v) ==> fresh && u is Some && v == u->0@ && v.len() > 0,
{
}

} // verus!
