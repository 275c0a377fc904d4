//! What the player reports: the track being played, playback state and the
//! audio output options it opens a stream with.
use vstd::prelude::*;

use crate::config::{AudioOutputDevice, UserSettings};
use crate::text::{chars_of, lowercase, to_lowercase};
use crate::ui::search::{chars_contain, occurs_in};

verus! {

/// A track as the player and the playlists know it.
#[derive(Debug, Clone, PartialEq, Eq)]
pub struct NowPlaying {
    pub artist: String,
    pub album: String,
    pub title: String,
    pub duration_secs: u32,
    pub path: String,
}

impl NowPlaying {
    /// A field-by-field copy.
    pub fn duplicate(&self) -> (r: Self)
        ensures
            r == *self,
    {
        NowPlaying {
            artist: self.artist.clone(),
            album: self.album.clone(),
            title: self.title.clone(),
            duration_secs: self.duration_secs,
            path: self.path.clone(),
        }
    }
}

#[derive(Debug, Clone)]
pub struct PlayerState {
    pub now_playing: Option<NowPlaying>,
    pub is_playing: bool,
    pub position_secs: u32,
}

impl PlayerState {
    /// The state shown before anything was loaded.
    pub fn placeholder() -> (r: Self)
        ensures
            r.now_playing is None,
            !r.is_playing,
            r.position_secs == 0,
    {
        PlayerState { now_playing: None, is_playing: false, position_secs: 0 }
    }
}

#[derive(Debug, Copy, Clone, PartialEq, Eq, Structural)]
pub enum PlaybackState {
    Stopped,
    Paused,
    Playing,
}

/// Output device and sample rate the audio stream is opened with.
#[derive(Debug, Clone, Copy, PartialEq, Eq, Structural)]
pub struct AudioOptions {
    pub output_device: AudioOutputDevice,
    pub sample_rate_hz: Option<u32>,
}

impl AudioOptions {
    /// The options the user chose in the preferences.
    pub fn from_settings(settings: &UserSettings) -> (r: Self)
        ensures
            r.output_device == settings.output_device,
            r.sample_rate_hz == settings.output_sample_rate_hz,
    {
        AudioOptions {
            output_device: settings.output_device,
            sample_rate_hz: settings.output_sample_rate_hz,
        }
    }

    /// Whether these are the system defaults (system device, device's own rate);
    /// a stream that fails to open with other options is retried with the defaults.
    pub fn is_default(&self) -> (r: bool)
        ensures
            r == (self.output_device == AudioOutputDevice::System && self.sample_rate_hz is None),
    {
        self.output_device == AudioOutputDevice::System && self.sample_rate_hz.is_none()
    }
}

impl Default for AudioOptions {
    fn default() -> (r: Self)
        ensures
            r.output_device == AudioOutputDevice::System,
            r.sample_rate_hz is None,
    {
        AudioOptions { output_device: AudioOutputDevice::System, sample_rate_hz: None }
    }
}

/// Whether the lower-cased name of an output device names a USB device or a
/// headset.
pub open spec fn is_usb_headset_name(name: Seq<char>) -> bool {
    occurs_in("usb"@, lowercase(name)) || occurs_in("headset"@, lowercase(name))
}

/// The output device used for a USB headset: the first device (by its
/// name, empty when the name cannot be read) that looks like one.
pub fn usb_headset_device(names: &Vec<String>) -> (r: Option<usize>)
    ensures
        match r {
            Some(i) => i < names.len() && is_usb_headset_name(names@[i as int]@) && forall|j: int|
                0 <= j < i ==> !is_usb_headset_name(#[trigger] names@[j]@),
            None => forall|j: int| 0 <= j < names.len() ==> !is_usb_headset_name(#[trigger] names@[j]@),
        },
{
    let usb = chars_of("usb");
    let headset = chars_of("headset");
    let mut i: usize = 0;
    while i < names.len()
        invariant
            i <= names.len(),
            usb@ == "usb"@,
            headset@ == "headset"@,
            forall|j: int| 0 <= j < i ==> !is_usb_headset_name(#[trigger] names@[j]@),
        decreases names.len() - i,
    {
        let lower = to_lowercase(names[i].as_str());
        let v = chars_of(lower.as_str());
        if chars_contain(&v, &usb) || chars_contain(&v, &headset) {
            return Some(i);
        }
        i = i + 1;
    }
    None
}

/// What the player knows of itself; the caller drives the audio output.
#[derive(Debug, Clone)]
pub struct PlayerModel {
    pub state: PlaybackState,
    pub current_track: Option<String>,
    pub position_secs: u64,
}

impl PlayerModel {
    /// A new player: stopped, nothing loaded.
    pub fn new() -> (r: Self)
        ensures
            r.state == PlaybackState::Stopped,
            r.current_track is None,
            r.position_secs == 0,
    {
        PlayerModel { state: PlaybackState::Stopped, current_track: None, position_secs: 0 }
    }

    /// A track is being loaded: it becomes the current track, from the start.
    pub fn start_load(&mut self, path: String)
        ensures
            final(self).current_track == Some(path),
            final(self).position_secs == 0,
            final(self).state == old(self).state,
    {
        self.current_track = Some(path);
        self.position_secs = 0;
    }

    /// The load ended: a decoded track waits, paused; a failed one leaves
    /// the state as it was.
    pub fn finish_load(&mut self, decoded: bool)
        ensures
            final(self).state == (if decoded {
                PlaybackState::Paused
            } else {
                old(self).state
            }),
            final(self).current_track == old(self).current_track,
            final(self).position_secs == old(self).position_secs,
    {
        if decoded {
            self.state = PlaybackState::Paused;
        }
    }

    pub fn play(&mut self)
        ensures
            final(self).state == PlaybackState::Playing,
            final(self).current_track == old(self).current_track,
            final(self).position_secs == old(self).position_secs,
    {
        self.state = PlaybackState::Playing;
    }

    pub fn pause(&mut self)
        ensures
            final(self).state == PlaybackState::Paused,
            final(self).current_track == old(self).current_track,
            final(self).position_secs == old(self).position_secs,
    {
        self.state = PlaybackState::Paused;
    }

    /// A seek: without a track nothing happens and `None` comes back; else
    /// the position moves and the track to decode again comes back.
    pub fn start_seek(&mut self, position_secs: u64) -> (r: Option<String>)
        ensures
            match old(self).current_track {
                None => r is None && *final(self) == *old(self),
                Some(p) => r == Some(p) && final(self).position_secs == position_secs
                    && final(self).current_track == old(self).current_track && final(self).state == old(self).state,
            },
    {
        match &self.current_track {
            None => None,
            Some(p) => {
                let path = p.clone();
                self.position_secs = position_secs;
                Some(path)
            },
        }
    }

    /// After a seek, the output plays on only if the player was playing.
    pub fn resumes_after_seek(&self) -> (r: bool)
        ensures
            r == (self.state == PlaybackState::Playing),
    {
        match self.state {
            PlaybackState::Playing => true,
            _ => false,
        }
    }
}

} // verus!
