//! The state of audio on macOS, where the system's audio units carry the sound.

use vstd::prelude::*;

use crate::audio;
use crate::number;
use crate::text;

verus! {

/// A sound device as the system lists it.
pub struct Device {
    pub id: u32,
    pub has_input: bool,
    pub name: String,
}

/// Whether a device answers to a query: sound comes in through it, and its name
/// holds the query, whatever the case.
pub open spec fn answers(d: Device, query: Seq<char>) -> bool {
    d.has_input && text::occurs(text::lower(d.name@), text::lower(query))
}

/// Finds the first device that answers to a query and gives its place in the
/// list.
pub fn resolve_source(devices: &[Device], query: &str) -> (r: Option<usize>)
    ensures
        match r {
            Some(i) => {
                &&& i < devices@.len()
                &&& answers(devices@[i as int], query@)
                &&& forall|j: int| 0 <= j < i ==> !answers(#[trigger] devices@[j], query@)
            },
            None => forall|j: int|
                0 <= j < devices@.len() ==> !answers(#[trigger] devices@[j], query@),
        },
{
    let needle = text::to_lower(text::chars_of(query).as_slice());
    let mut i: usize = 0;
    while i < devices.len()
        invariant
            i <= devices@.len(),
            needle@ == text::lower(query@),
            forall|j: int| 0 <= j < i ==> !answers(#[trigger] devices@[j], query@),
        decreases devices@.len() - i,
    {
        if devices[i].has_input && text::contains(
            text::to_lower(text::chars_of(devices[i].name.as_str()).as_slice()).as_slice(),
            needle.as_slice(),
        ) {
            return Some(i);
        }
        i += 1;
    }
    None
}

/// The name of a device that tells none.
pub fn nameless(id: u32) -> (r: String)
    ensures
        r@ == "device_"@ + number::decimal(id as nat),
{
    let mut out = text::chars_of("device_");
    let n = number::to_decimal(id as u64);
    text::extend(&mut out, n.as_slice());
    text::string_of(out.as_slice())
}

/// Sound from a device to the speakers.
pub struct AudioPassthrough {
    pub running: bool,
    pub volume: i32,
    pub max_volume: i32,
    pub source_name: String,
    pub muted: bool,
}

impl AudioPassthrough {
    /// Starts passing sound on, at full volume.
    pub fn start(source_name: String, max_volume: u32) -> (r: AudioPassthrough)
        ensures
            r == (AudioPassthrough {
                running: true,
                volume: 100,
                max_volume: max_volume as i32,
                source_name,
                muted: false,
            }),
    {
        AudioPassthrough {
            running: true,
            volume: 100,
            max_volume: max_volume as i32,
            source_name,
            muted: false,
        }
    }

    /// The name of the source.
    pub fn source_name(&self) -> (r: &str)
        ensures
            r@ == self.source_name@,
    {
        self.source_name.as_str()
    }

    /// Raises the volume by five, up to the most allowed, and gives it.
    pub fn volume_up(&mut self) -> (r: i32)
        requires
            old(self).volume <= i32::MAX - 5,
        ensures
            r == audio::lower_of(old(self).volume + 5, old(self).max_volume as int),
            *final(self) == (AudioPassthrough { volume: r, ..*old(self) }),
    {
        let up: i32 = self.volume + 5;
        self.volume = if up <= self.max_volume {
            up
        } else {
            self.max_volume
        };
        self.volume
    }

    /// Lowers the volume by five, down to 0, and gives it.
    pub fn volume_down(&mut self) -> (r: i32)
        requires
            old(self).volume >= i32::MIN + 5,
        ensures
            r == (if old(self).volume - 5 < 0 {
                0
            } else {
                old(self).volume - 5
            }),
            *final(self) == (AudioPassthrough { volume: r, ..*old(self) }),
    {
        let down: i32 = self.volume - 5;
        self.volume = if down < 0 {
            0
        } else {
            down
        };
        self.volume
    }

    /// The volume.
    pub fn volume(&self) -> (r: i32)
        ensures
            r == self.volume,
    {
        self.volume
    }

    /// Sets the volume, within its bounds.
    pub fn set_volume(&mut self, v: i32)
        ensures
            *final(self) == (AudioPassthrough {
                volume: audio::bounded(v as int, old(self).max_volume as int) as i32,
                ..*old(self)
            }),
    {
        let low: i32 = if v < 0 {
            0
        } else {
            v
        };
        self.volume = if low <= self.max_volume {
            low
        } else {
            self.max_volume
        };
    }

    /// Whether the sound is muted.
    pub fn is_muted(&self) -> (r: bool)
        ensures
            r == self.muted,
    {
        self.muted
    }

    /// Notes whether the sound is muted.
    pub fn set_muted(&mut self, muted: bool)
        ensures
            *final(self) == (AudioPassthrough { muted, ..*old(self) }),
    {
        self.muted = muted;
    }

    /// Mutes the sound, which stops it, or ends the mute, and tells whether it
    /// is muted now.
    pub fn toggle_mute(&mut self) -> (r: bool)
        ensures
            r == !old(self).muted,
            *final(self) == (AudioPassthrough {
                muted: r,
                running: old(self).running && !r,
                ..*old(self)
            }),
    {
        if self.muted {
            self.muted = false;
            false
        } else {
            self.running = false;
            self.muted = true;
            true
        }
    }

    /// The size of the capture buffer in milliseconds, which is fixed.
    pub fn capture_buf_ms(&self) -> (r: i32)
        ensures
            r == 5,
    {
        5
    }

    /// The size of the playback buffer in milliseconds, which is fixed.
    pub fn playback_buf_ms(&self) -> (r: i32)
        ensures
            r == 10,
    {
        10
    }

    /// Stops passing sound on.
    pub fn stop(&mut self)
        ensures
            *final(self) == (AudioPassthrough { running: false, ..*old(self) }),
    {
        self.running = false;
    }
}

} // verus!
