//! User preferences: theme, text scale, volume, audio output and online
//! metadata settings.
use vstd::prelude::*;

verus! {

#[derive(Debug, Clone, Copy, PartialEq, Eq, Structural)]
pub enum ThemeMode {
    Dark,
    Light,
}

impl Default for ThemeMode {
    fn default() -> (r: Self)
        ensures
            r == ThemeMode::Dark,
    {
        ThemeMode::Dark
    }
}

#[derive(Debug, Clone, Copy, PartialEq, Eq, Structural)]
pub enum TextScale {
    Normal,
    Large,
    ExtraLarge,
}

impl Default for TextScale {
    fn default() -> (r: Self)
        ensures
            r == TextScale::Normal,
    {
        TextScale::Normal
    }
}

impl TextScale {
    /// The label shown for this scale in the preferences.
    pub fn label(self) -> (r: &'static str)
        ensures
            r@ == (match self {
                TextScale::Normal => "Normal"@,
                TextScale::Large => "Large"@,
                TextScale::ExtraLarge => "Très grand"@,
            }),
    {
        match self {
            TextScale::Normal => "Normal",
            TextScale::Large => "Large",
            TextScale::ExtraLarge => "Très grand",
        }
    }
}

/// Where audio is sent.
#[derive(Debug, Clone, Copy, PartialEq, Eq, Structural)]
pub enum AudioOutputDevice {
    System,
    UsbHeadset,
}

/// The largest default volume.
pub const MAX_VOLUME: u8 = 100;

#[derive(Debug, Clone, PartialEq, Eq)]
pub struct UserSettings {
    pub theme_mode: ThemeMode,
    pub text_scale: TextScale,
    pub default_volume: u8,
    pub output_device: AudioOutputDevice,
    pub output_sample_rate_hz: Option<u32>,
    pub metadata_api_key: String,
    pub metadata_cache_ttl_hours: u32,
}

/// The settings a fresh installation starts with.
pub open spec fn is_default_settings(s: UserSettings) -> bool {
    &&& s.theme_mode == ThemeMode::Dark
    &&& s.text_scale == TextScale::Normal
    &&& s.default_volume == 72
    &&& s.output_device == AudioOutputDevice::System
    &&& s.output_sample_rate_hz is None
    &&& s.metadata_api_key@ == Seq::<char>::empty()
    &&& s.metadata_cache_ttl_hours == 24
}

impl Default for UserSettings {
    fn default() -> (r: Self)
        ensures
            is_default_settings(r),
    {
        UserSettings {
            theme_mode: ThemeMode::Dark,
            text_scale: TextScale::Normal,
            default_volume: 72,
            output_device: AudioOutputDevice::System,
            output_sample_rate_hz: None,
            metadata_api_key: String::new(),
            metadata_cache_ttl_hours: 24,
        }
    }
}

impl UserSettings {
    /// The settings with the default volume capped at 100.
    pub fn normalized(self) -> (r: Self)
        ensures
            r.default_volume == (if self.default_volume <= 100 {
                self.default_volume
            } else {
                100u8
            }),
            r.theme_mode == self.theme_mode,
            r.text_scale == self.text_scale,
            r.output_device == self.output_device,
            r.output_sample_rate_hz == self.output_sample_rate_hz,
            r.metadata_api_key == self.metadata_api_key,
            r.metadata_cache_ttl_hours == self.metadata_cache_ttl_hours,
    {
        let mut s = self;
        if s.default_volume > MAX_VOLUME {
            s.default_volume = MAX_VOLUME;
        }
        s
    }
}

/// Path of the preferences file inside the configuration directory.
pub open spec fn spec_settings_path(config_root: Seq<char>) -> Seq<char> {
    crate::paths::join_path(config_root, "preferences.json"@)
}

/// Path of the preferences file, given the configuration directory
/// (`~/.config/grape`, or `.` when no home directory is known).
pub fn settings_path(config_root: &str) -> (r: String)
    ensures
        r@ == spec_settings_path(config_root@),
{
    crate::paths::join(config_root, "preferences.json")
}

} // verus!
