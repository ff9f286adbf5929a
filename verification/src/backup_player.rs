//! Decisions of the low-quality backup player: what a `load` has to do,
//! which video it holds, and when it counts as playing something new.
//! The player process and its X11 window belong to the application.

use vstd::prelude::*;
use crate::text::str_eq;
use crate::player_util::{extract_video_id, video_id_of};

verus! {

/// What loading `url` into the backup requires, given what it holds.
#[derive(Copy, Clone, PartialEq, Eq, Debug, Structural)]
pub enum BackupLoad {
    /// Same URL already loaded: only resynchronise, seeking when asked.
    Resync { seek: bool },
    /// A new URL: drain stale events, set the start offset when asked,
    /// then load the file.
    Reload { set_start: bool },
}

/// The logical state of a backup player: the URL it was last asked to
/// load and whether its first frame has been decoded since.
pub struct BackupPlayer {
    pub visible: bool,
    pub current_url: Option<String>,
    pub first_frame_ready: bool,
}

impl BackupPlayer {
    pub fn new() -> (r: Self)
        ensures
            !r.visible,
            r.current_url is None,
            !r.first_frame_ready,
    {
        BackupPlayer { visible: false, current_url: None, first_frame_ready: false }
    }

    /// Load `youtube_url`, starting at a position worth seeking to when
    /// `seek_wanted` (the caller's `seek_to > 0.5`). A repeated URL only
    /// resynchronises; a new one resets the first-frame signal.
    pub fn load(&mut self, youtube_url: &str, seek_wanted: bool) -> (r: BackupLoad)
        ensures
            (old(self).current_url matches Some(u) && u@ == youtube_url@) ==> {
                &&& r == BackupLoad::Resync { seek: seek_wanted }
                &&& final(self).current_url == old(self).current_url
                &&& final(self).first_frame_ready == old(self).first_frame_ready
            },
            !(old(self).current_url matches Some(u) && u@ == youtube_url@) ==> {
                &&& r == BackupLoad::Reload { set_start: seek_wanted }
                &&& final(self).current_url matches Some(u) && u@ == youtube_url@
                &&& !final(self).first_frame_ready
            },
            final(self).visible == old(self).visible,
    {
        let same = match &self.current_url {
            Some(u) => str_eq(u.as_str(), youtube_url),
            None => false,
        };
        if same {
            return BackupLoad::Resync { seek: seek_wanted };
        }
        self.current_url = Some(String::from_str(youtube_url));
        self.first_frame_ready = false;
        BackupLoad::Reload { set_start: seek_wanted }
    }

    /// Record the events drained from the player: `saw_reconfig` when one
    /// of them was a video reconfiguration. Returns whether the first
    /// frame of the current file is ready.
    pub fn poll_first_frame_ready(&mut self, saw_reconfig: bool) -> (r: bool)
        ensures
            r == (old(self).first_frame_ready || saw_reconfig),
            final(self).first_frame_ready == r,
            final(self).current_url == old(self).current_url,
            final(self).visible == old(self).visible,
    {
        if !self.first_frame_ready && saw_reconfig {
            self.first_frame_ready = true;
        }
        self.first_frame_ready
    }

    /// The YouTube video id of the loaded URL, if it is a watch URL.
    pub fn current_video_id(&self) -> (r: Option<String>)
        ensures
            r matches Some(id) ==> (self.current_url matches Some(u) && video_id_of(u@) == Some(id@)),
            r is None ==> (self.current_url matches Some(u) ==> video_id_of(u@) is None),
    {
        match &self.current_url {
            Some(u) => extract_video_id(u.as_str()),
            None => None,
        }
    }
}

/// Demuxer settings of a backup player: `cache-secs`,
/// `demuxer-readahead-secs`, `demuxer-max-bytes`, `demuxer-max-back-bytes`.
#[derive(Copy, Clone, PartialEq, Eq, Debug, Structural)]
pub struct CacheSettings {
    pub cache_secs: i64,
    pub readahead_secs: i64,
    pub max_bytes: i64,
    pub max_back_bytes: i64,
}

/// While parked in the memory cache: a small demuxer (5 s, 20 MiB).
pub fn parked_cache_settings() -> (r: CacheSettings)
    ensures
        r == (CacheSettings { cache_secs: 5, readahead_secs: 5, max_bytes: 20971520i64, max_back_bytes: 5242880i64 }),
{
    CacheSettings { cache_secs: 5, readahead_secs: 5, max_bytes: 20 * 1024 * 1024, max_back_bytes: 5 * 1024 * 1024 }
}

/// While active: the full demuxer (10 s, 40 MiB).
pub fn active_cache_settings() -> (r: CacheSettings)
    ensures
        r == (CacheSettings { cache_secs: 10, readahead_secs: 6, max_bytes: 41943040i64, max_back_bytes: 10485760i64 }),
{
    CacheSettings { cache_secs: 10, readahead_secs: 6, max_bytes: 40 * 1024 * 1024, max_back_bytes: 10 * 1024 * 1024 }
}

impl BackupPlayer {
    /// Show the backup above the main player (and unmute it): its window
    /// is mapped raised unless already shown (returns whether to map).
    pub fn show(&mut self) -> (map: bool)
        ensures
            map == !old(self).visible,
            final(self).visible,
            final(self).current_url == old(self).current_url,
            final(self).first_frame_ready == old(self).first_frame_ready,
    {
        let map = !self.visible;
        self.visible = true;
        map
    }

    /// Hide the backup (and mute it): returns whether to unmap its window.
    pub fn hide_window(&mut self) -> (unmap: bool)
        ensures
            unmap == old(self).visible,
            !final(self).visible,
            final(self).current_url == old(self).current_url,
            final(self).first_frame_ready == old(self).first_frame_ready,
    {
        let unmap = self.visible;
        self.visible = false;
        unmap
    }

    /// Move the window off-screen (the player keeps decoding); also what
    /// parking it does, with `parked_cache_settings` and muting.
    pub fn move_offscreen(&mut self)
        ensures
            !final(self).visible,
            final(self).current_url == old(self).current_url,
            final(self).first_frame_ready == old(self).first_frame_ready,
    {
        self.visible = false;
    }

    pub fn is_visible(&self) -> (r: bool)
        ensures
            r == self.visible,
    {
        self.visible
    }

    /// After a move, the window is raised again when shown.
    pub fn raise_after_move(&self) -> (r: bool)
        ensures
            r == self.visible,
    {
        self.visible
    }
}

/// The backup shows video `video_id`: its `path` contains the id and its
/// position (in ms, read by the caller) is past 50 ms.
pub fn is_playing(path: &str, video_id: &str, time_pos_ms: i64) -> (r: bool)
    ensures
        r == (crate::text::str_contains_spec(path@, video_id@) && time_pos_ms > 50),
{
    crate::text::str_contains(path, video_id) && time_pos_ms > 50
}

/// The backup has moved off `prev_path` and is rendering: its `path`
/// property is set and differs, and it is neither idle, stalled on the
/// cache nor seeking.
pub open spec fn playing_different(path: Seq<char>, prev_path: Seq<char>, core_idle: bool, stalled: bool, seeking: bool) -> bool {
    path.len() > 0 && path != prev_path && !core_idle && !stalled && !seeking
}

/// Decision of `is_playing_different_from` on the player's properties
/// (`path`, `core-idle`, `paused-for-cache`, `seeking`), read by the
/// caller with the defaults "", true, false, false for unreadable ones.
pub fn is_playing_different_from(path: &str, prev_path: &str, core_idle: bool, stalled: bool, seeking: bool) -> (r: bool)
    ensures
        r == playing_different(path@, prev_path@, core_idle, stalled, seeking),
{
    if path.unicode_len() == 0 || str_eq(path, prev_path) {
        return false;
    }
    !core_idle && !stalled && !seeking
}

/// A player that is seeking, idle, stalled on its cache, or has no
/// path is never counted as showing something new; one that shows the
/// path it showed before is not either.
pub proof fn law_playing_different_needs_steady_new_path(
    path: Seq<char>,
    prev_path: Seq<char>,
    core_idle: bool,
    stalled: bool,
    seeking: bool,
)
    ensures
        seeking ==> !playing_different(path, prev_path, core_idle, stalled, seeking),
        core_idle ==> !playing_different(path, prev_path, core_idle, stalled, seeking),
        stalled ==> !playing_different(path, prev_path, core_idle, stalled, seeking),
        path.len() == 0 ==> !playing_different(path, prev_path, core_idle, stalled, seeking),
        path == prev_path ==> !playing_different(path, prev_path, core_idle, stalled, seeking),
        (path.len() > 0 && path != prev_path && !core_idle && !stalled && !seeking) ==> playing_different(
            path,
            prev_path,
            core_idle,
            stalled,
            seeking,
        ),
{
}

} // verus!
