//! Switching a session between forwarding and mixing.
use vstd::prelude::*;

use crate::conference::ConferenceAudioMixer;

verus! {

/// How the media of a session flows.
#[derive(Debug, Clone, Copy, PartialEq, Eq, Structural)]
pub enum MediaMode {
    /// From leg to leg.
    Bridge,
    /// Through a mixer.
    Mcu,
}

/// The media mode of a session, with its mixer.
#[derive(Debug)]
pub struct McuSwitch {
    pub session_id: String,
    pub mixer: Option<ConferenceAudioMixer>,
    pub mode: MediaMode,
    pub sample_rate: u32,
}

/// The name of the conference of a session.
pub open spec fn conference_name(session_id: Seq<char>) -> Seq<char> {
    "mcu-"@ + session_id
}

impl McuSwitch {
    /// A mixer is there exactly while the session is mixed.
    pub open spec fn wf(&self) -> bool {
        &&& self.mixer is Some == (self.mode == MediaMode::Mcu)
        &&& self.mixer matches Some(m) ==> m.wf()
    }

    pub fn new(session_id: String, sample_rate: u32) -> (r: Self)
        ensures
            r.wf(),
            r == (McuSwitch { session_id, mixer: None, mode: MediaMode::Bridge, sample_rate }),
    {
        McuSwitch { session_id, mixer: None, mode: MediaMode::Bridge, sample_rate }
    }

    pub fn mode(&self) -> (r: MediaMode)
        ensures
            r == self.mode,
    {
        self.mode
    }

    pub fn mixer(&self) -> (r: Option<&ConferenceAudioMixer>)
        ensures
            r is Some == self.mixer is Some,
            r matches Some(m) ==> *m == self.mixer->0,
    {
        match &self.mixer {
            Some(m) => Some(m),
            None => None,
        }
    }

    /// Lets the session be mixed; gives whether a mixer was made, which is then to be started. A
    /// session that is mixed already keeps its mixer.
    pub fn switch_to_mcu(&mut self) -> (r: bool)
        requires
            old(self).wf(),
        ensures
            final(self).wf(),
            final(self).mode == MediaMode::Mcu,
            final(self).session_id == old(self).session_id,
            final(self).sample_rate == old(self).sample_rate,
            r == (old(self).mode == MediaMode::Bridge),
            !r ==> *final(self) == *old(self),
            r ==> {
                let m = final(self).mixer->0;
                &&& m.conf_id@ == conference_name(old(self).session_id@)
                &&& m.sample_rate == old(self).sample_rate
                &&& m.participants@.len() == 0
                &&& m.route_gains@.len() == 0
                &&& !m.recording
            },
    {
        if self.mode == MediaMode::Mcu && self.mixer.is_some() {
            return false;
        }
        let mut conf_id = "mcu-".to_owned();
        conf_id.append(self.session_id.as_str());
        let mixer = ConferenceAudioMixer::new(conf_id, self.sample_rate);
        self.mixer = Some(mixer);
        self.mode = MediaMode::Mcu;
        true
    }

    /// Lets the session be forwarded; gives the mixer, which is then to be stopped.
    pub fn switch_to_bridge(&mut self) -> (r: Option<ConferenceAudioMixer>)
        requires
            old(self).wf(),
        ensures
            final(self).wf(),
            *final(self) == (McuSwitch { mixer: None, mode: MediaMode::Bridge, ..*old(self) }),
            r == old(self).mixer,
    {
        if self.mode == MediaMode::Bridge {
            return None;
        }
        let mixer = self.mixer.take();
        self.mode = MediaMode::Bridge;
        mixer
    }
}

/// Sessions have conferences of their own.
pub proof fn law_conferences_are_told_apart(a: Seq<char>, b: Seq<char>)
    requires
        a != b,
    ensures
        conference_name(a) != conference_name(b),
        conference_name(a).skip(4) == a,
{
    reveal_strlit("mcu-");
    assert(conference_name(a).skip(4) =~= a);
    assert(conference_name(b).skip(4) =~= b);
}

} // verus!
