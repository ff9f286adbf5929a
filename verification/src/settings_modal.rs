//! The settings modal: the memory setting (how many channels stay warm
//! for an instant zap, the current one included: off, 2, 3, 4 or 5), the
//! preferred quality, the purge button, and the hints shown under them.

use vstd::prelude::*;

verus! {

/// The user's settings that the modal edits.
#[derive(Copy, Clone, PartialEq, Eq, Debug, Structural)]
pub struct Settings {
    /// Channels kept warm, the current one included (0: off).
    pub memory_capacity: u8,
    /// Row of the quality menu (0: Auto .. 4: 360p).
    pub preferred_quality: u8,
}

/// What the modal tells the application.
#[derive(Copy, Clone, PartialEq, Eq, Debug, Structural)]
pub enum SettingsEvent {
    MemoryCapacity(u8),
    PurgeMemory,
    QualityChanged(u8),
    Close,
}

/// The hint under the memory choices.
#[derive(Copy, Clone, PartialEq, Eq, Debug, Structural)]
pub enum MemoryHint {
    Disabled,
    Recommended,
    /// `n` channels cost about `mb` MB and `cpu` % of CPU.
    Many { n: u8, mb: u32, cpu: u32 },
}

/// The modal's state.
pub struct SettingsModal {
    pub settings: Settings,
    /// Address of the phone remote, when its server runs.
    pub remote_url: Option<String>,
}

/// The memory choices: value and label.
pub open spec fn memory_option(i: int) -> (u8, Seq<char>) {
    if i == 0 {
        (0u8, "Off"@)
    } else if i == 1 {
        (2u8, "2"@)
    } else if i == 2 {
        (3u8, "3"@)
    } else if i == 3 {
        (4u8, "4"@)
    } else {
        (5u8, "5"@)
    }
}

pub fn memory_options() -> (r: Vec<(u8, &'static str)>)
    ensures
        r@.len() == 5,
        forall|i: int| 0 <= i < 5 ==> (#[trigger] r@[i]).0 == memory_option(i).0 && r@[i].1@ == memory_option(i).1,
{
    let v: Vec<(u8, &'static str)> = vec![(0, "Off"), (2, "2"), (3, "3"), (4, "4"), (5, "5")];
    v
}

/// The hint for memory setting `cap`: off, recommended (2), or the cost
/// of the parked channels: 100 MB and 5 % of CPU each.
pub fn memory_hint(cap: u8) -> (r: MemoryHint)
    ensures
        r == (if cap == 0 {
            MemoryHint::Disabled
        } else if cap == 2 {
            MemoryHint::Recommended
        } else {
            MemoryHint::Many { n: cap, mb: ((cap - 1) * 100) as u32, cpu: ((cap - 1) * 5) as u32 }
        }),
{
    if cap == 0 {
        MemoryHint::Disabled
    } else if cap == 2 {
        MemoryHint::Recommended
    } else {
        let k = cap as u32 - 1;
        MemoryHint::Many { n: cap, mb: k * 100, cpu: k * 5 }
    }
}

/// The memory hint is a warning (more than two channels kept warm).
pub fn memory_hint_warns(cap: u8) -> (r: bool)
    ensures
        r == (cap > 2),
{
    cap > 2
}

/// Label key of the hint under the quality choices ("" for none).
pub fn quality_hint_key(quality: u8) -> (r: &'static str)
    ensures
        r@ == (if quality == 0 {
            "settings.quality.hint.auto"@
        } else if quality == 1 {
            "settings.quality.hint.1080"@
        } else if quality == 2 {
            "settings.quality.hint.720"@
        } else if quality == 3 {
            "settings.quality.hint.480"@
        } else if quality == 4 {
            "settings.quality.hint.360"@
        } else {
            ""@
        }),
{
    if quality == 0 {
        "settings.quality.hint.auto"
    } else if quality == 1 {
        "settings.quality.hint.1080"
    } else if quality == 2 {
        "settings.quality.hint.720"
    } else if quality == 3 {
        "settings.quality.hint.480"
    } else if quality == 4 {
        "settings.quality.hint.360"
    } else {
        ""
    }
}

impl SettingsModal {
    pub fn new(settings: Settings, remote_url: Option<String>) -> (r: Self)
        ensures
            r.settings == settings,
            r.remote_url == remote_url,
    {
        SettingsModal { settings, remote_url }
    }

    pub fn set_settings(&mut self, settings: Settings)
        ensures
            final(self).settings == settings,
            final(self).remote_url == old(self).remote_url,
    {
        self.settings = settings;
    }

    /// A memory choice was clicked.
    pub fn select_memory(&mut self, v: u8) -> (e: SettingsEvent)
        ensures
            final(self).settings.memory_capacity == v,
            final(self).settings.preferred_quality == old(self).settings.preferred_quality,
            e == SettingsEvent::MemoryCapacity(v),
    {
        self.settings.memory_capacity = v;
        SettingsEvent::MemoryCapacity(v)
    }

    /// A quality choice was clicked.
    pub fn select_quality(&mut self, v: u8) -> (e: SettingsEvent)
        ensures
            final(self).settings.preferred_quality == v,
            final(self).settings.memory_capacity == old(self).settings.memory_capacity,
            e == SettingsEvent::QualityChanged(v),
    {
        self.settings.preferred_quality = v;
        SettingsEvent::QualityChanged(v)
    }
}

} // verus!
