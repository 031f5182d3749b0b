//! Copying a picture to the clipboard: which protocol serves it, and what the
//! serving loop does on what it is told.

use vstd::prelude::*;

use crate::text;

verus! {

/// The protocols that can serve a picture.
#[derive(Clone, Copy, Debug, PartialEq, Eq, Structural)]
pub enum Proto {
    /// `ext-data-control-v1`.
    Ext,
    /// `wlr-data-control-unstable-v1`.
    Wlr,
}

/// Whether a list of interfaces has one of this name.
pub open spec fn offers(interfaces: Seq<String>, name: Seq<char>) -> bool {
    exists|i: int| 0 <= i < interfaces.len() && (#[trigger] interfaces[i])@ == name
}

fn has_interface(interfaces: &[String], name: &str) -> (r: bool)
    ensures
        r == offers(interfaces@, name@),
{
    let mut i: usize = 0;
    while i < interfaces.len()
        invariant
            i <= interfaces@.len(),
            forall|j: int| 0 <= j < i ==> (#[trigger] interfaces@[j])@ != name@,
        decreases interfaces@.len() - i,
    {
        if text::same(interfaces[i].as_str(), name) {
            return true;
        }
        i += 1;
    }
    false
}

/// Chooses the protocol among the interfaces that the compositor offers; `None`
/// where it offers neither.
pub fn detect_protocol(interfaces: &[String]) -> (r: Option<Proto>)
    ensures
        r == (if offers(interfaces@, "ext_data_control_manager_v1"@) {
            Some(Proto::Ext)
        } else if offers(interfaces@, "zwlr_data_control_manager_v1"@) {
            Some(Proto::Wlr)
        } else {
            None
        }),
{
    if has_interface(interfaces, "ext_data_control_manager_v1") {
        Some(Proto::Ext)
    } else if has_interface(interfaces, "zwlr_data_control_manager_v1") {
        Some(Proto::Wlr)
    } else {
        None
    }
}

/// What the compositor tells of an offered picture.
#[derive(Clone, Copy, Debug, PartialEq, Eq, Structural)]
pub enum SourceEvent {
    /// Another program wants the picture.
    Send,
    /// Something else was copied.
    Cancelled,
    Other,
}

/// The state of the serving loop.
#[derive(Clone, Copy, Debug, PartialEq, Eq, Structural)]
pub struct Serving {
    pub done: bool,
    pub send_count: u32,
}

impl Serving {
    /// A loop that has served nothing yet.
    pub fn new() -> (r: Serving)
        ensures
            r == (Serving { done: false, send_count: 0 }),
    {
        Serving { done: false, send_count: 0 }
    }

    /// Takes what the compositor told and tells whether the picture is to be
    /// written out now.
    pub fn handle(&mut self, event: SourceEvent) -> (r: bool)
        requires
            old(self).send_count < u32::MAX,
        ensures
            r == (event == SourceEvent::Send),
            final(self).done == (old(self).done || event == SourceEvent::Cancelled),
            final(self).send_count == old(self).send_count + (if r {
                1int
            } else {
                0
            }),
    {
        match event {
            SourceEvent::Send => {
                self.send_count = self.send_count + 1;
                true
            },
            SourceEvent::Cancelled => {
                self.done = true;
                false
            },
            SourceEvent::Other => false,
        }
    }

    /// Whether the loop goes on: nothing else was copied and it was not told to
    /// stop.
    pub fn goes_on(&self, running: bool) -> (r: bool)
        ensures
            r == (!self.done && running),
    {
        !self.done && running
    }
}

/// Whether a session is one in which pictures can be copied: on macOS always,
/// elsewhere where a Wayland display is named.
pub fn is_wayland(mac: bool, display_named: bool) -> (r: bool)
    ensures
        r == (mac || display_named),
{
    mac || display_named
}

} // verus!
