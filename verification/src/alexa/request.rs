//! Amazon Alexa Skills Kit (ASK) v1 request envelope.
//!
//! The structs here mirror the subset of the ASK v1 API that a music +
//! conversation skill receives. Optional sections are `Option`.

use vstd::prelude::*;

use crate::json::Json;
use crate::string_map::StringMap;
use crate::text::chars::to_chars;
use crate::text::chars;
use crate::text::trim::is_blank;
use crate::text::trim;

verus! {

/// Top-level envelope for every request Amazon sends to the skill endpoint.
#[derive(Debug)]
pub struct Envelope {
    pub version: String,
    pub session: Option<Session>,
    pub context: Option<Context>,
    pub request: Request,
}

#[derive(Debug)]
pub struct Session {
    pub new: Option<bool>,
    pub session_id: Option<String>,
    pub application: Option<ApplicationRef>,
    pub user: Option<UserRef>,
    pub attributes: Option<Json>,
}

#[derive(Debug, Clone)]
pub struct ApplicationRef {
    pub application_id: Option<String>,
}

#[derive(Debug, Clone)]
pub struct UserRef {
    pub user_id: Option<String>,
}

#[derive(Debug)]
pub struct Context {
    pub system: Option<SystemContext>,
    pub audio_player: Option<AudioPlayerContext>,
}

#[derive(Debug)]
pub struct SystemContext {
    pub device: Option<Device>,
    pub application: Option<ApplicationRef>,
    pub user: Option<UserRef>,
}

#[derive(Debug)]
pub struct Device {
    pub device_id: Option<String>,
    pub supported_interfaces: Option<Json>,
}

/// AudioPlayer state as reported by the device on every request.
#[derive(Debug, Clone)]
pub struct AudioPlayerContext {
    pub player_activity: Option<PlayerActivity>,
    pub token: Option<String>,
    pub offset_in_milliseconds: Option<i64>,
}

impl Default for AudioPlayerContext {
    fn default() -> (r: Self)
        ensures
            r.player_activity is None,
            r.token is None,
            r.offset_in_milliseconds is None,
    {
        AudioPlayerContext { player_activity: None, token: None, offset_in_milliseconds: None }
    }
}

#[derive(Debug, Clone, Copy, PartialEq, Eq, Structural)]
pub enum PlayerActivity {
    Buffering,
    Finished,
    Idle,
    Paused,
    Playing,
    Stopped,
    Unknown,
}

impl Default for PlayerActivity {
    fn default() -> (r: Self)
        ensures
            r == PlayerActivity::Idle,
    {
        PlayerActivity::Idle
    }
}

#[derive(Debug)]
pub struct Request {
    pub request_type: String,
    pub request_id: Option<String>,
    pub timestamp: Option<String>,
    pub locale: Option<String>,
    pub dialog_state: Option<String>,
    pub intent: Option<Intent>,
}

#[derive(Debug)]
pub struct Intent {
    pub name: Option<String>,
    pub confirmation_status: Option<String>,
    pub slots: StringMap<Slot>,
}

#[derive(Debug)]
pub struct Slot {
    pub name: Option<String>,
    pub value: Option<String>,
    pub values: Option<Vec<String>>,
    /// ASK sends an object here: `{"status":"SUCCESS","value":{...}}`.
    pub resolution_status: Option<Json>,
    pub confirmation_status: Option<String>,
}

/// The application id that a reference holds.
pub open spec fn application_of(a: Option<ApplicationRef>) -> Option<Seq<char>> {
    match a {
        Some(a) => chars::opt_text(a.application_id),
        None => None,
    }
}

impl Envelope {
    /// The id of the device in the system context, unless it is empty.
    pub open spec fn device(self) -> Option<Seq<char>> {
        match self.context {
            Some(c) => match c.system {
                Some(s) => match s.device {
                    Some(d) => match d.device_id {
                        Some(id) => if id@.len() > 0 {
                            Some(id@)
                        } else {
                            None
                        },
                        None => None,
                    },
                    None => None,
                },
                None => None,
            },
            None => None,
        }
    }

    /// The application id of the system context, and failing that of the session.
    pub open spec fn application(self) -> Option<Seq<char>> {
        let of_system = match self.context {
            Some(c) => match c.system {
                Some(s) => application_of(s.application),
                None => None,
            },
            None => None,
        };
        match of_system {
            Some(id) => Some(id),
            None => match self.session {
                Some(s) => application_of(s.application),
                None => None,
            },
        }
    }

    /// What the device reports of its player.
    pub open spec fn player(self) -> Option<AudioPlayerContext> {
        match self.context {
            Some(c) => c.audio_player,
            None => None,
        }
    }

    /// The slot with the given name.
    pub open spec fn slot_named(self, name: Seq<char>) -> Option<Slot> {
        match self.request.intent {
            Some(i) => if i.slots@.dom().contains(name) {
                Some(i.slots@[name])
            } else {
                None
            },
            None => None,
        }
    }

    /// The value of a slot, unless it is blank.
    pub open spec fn slot_value(self, name: Seq<char>) -> Option<Seq<char>> {
        match self.slot_named(name) {
            Some(s) => match s.value {
                Some(v) => if trim::blank(v@) {
                    None
                } else {
                    Some(v@)
                },
                None => None,
            },
            None => None,
        }
    }

    /// The values of a slot that has several.
    pub open spec fn slot_list(self, name: Seq<char>) -> Seq<Seq<char>> {
        match self.slot_named(name) {
            Some(s) => match s.values {
                Some(vs) => chars::all_texts(vs@),
                None => seq![],
            },
            None => seq![],
        }
    }

    /// The name of the intent.
    pub open spec fn intent_text(self) -> Option<Seq<char>> {
        match self.request.intent {
            Some(i) => chars::opt_text(i.name),
            None => None,
        }
    }

    /// Stable identifier of the Alexa device, used to key per-device state.
    pub fn device_id(&self) -> (r: Option<&str>)
        ensures
            chars::opt_str(r) == self.device(),
    {
        match &self.context {
            Some(c) => match &c.system {
                Some(s) => match &s.device {
                    Some(d) => match &d.device_id {
                        Some(id) => if to_chars(id.as_str()).len() > 0 {
                            Some(id.as_str())
                        } else {
                            None
                        },
                        None => None,
                    },
                    None => None,
                },
                None => None,
            },
            None => None,
        }
    }

    /// The id of the skill that the request is for.
    pub fn application_id(&self) -> (r: Option<&str>)
        ensures
            chars::opt_str(r) == self.application(),
    {
        let of_system = match &self.context {
            Some(c) => match &c.system {
                Some(s) => application_id_of(&s.application),
                None => None,
            },
            None => None,
        };
        match of_system {
            Some(id) => Some(id),
            None => match &self.session {
                Some(s) => application_id_of(&s.application),
                None => None,
            },
        }
    }

    /// What the device reports of its player.
    pub fn audio_player(&self) -> (r: Option<&AudioPlayerContext>)
        ensures
            match r {
                Some(a) => self.player() == Some(*a),
                None => self.player() is None,
            },
    {
        match &self.context {
            Some(c) => match &c.audio_player {
                Some(a) => Some(a),
                None => None,
            },
            None => None,
        }
    }

    fn find_slot(&self, name: &str) -> (r: Option<&Slot>)
        ensures
            match r {
                Some(s) => self.slot_named(name@) == Some(*s),
                None => self.slot_named(name@) is None,
            },
    {
        match &self.request.intent {
            Some(i) => i.slots.get(name),
            None => None,
        }
    }

    /// First non-empty value of a slot, if the current request carries one.
    pub fn slot(&self, name: &str) -> (r: Option<&str>)
        ensures
            chars::opt_str(r) == self.slot_value(name@),
    {
        match self.find_slot(name) {
            Some(s) => match &s.value {
                Some(v) => if is_blank(to_chars(v.as_str()).as_slice()) {
                    None
                } else {
                    Some(v.as_str())
                },
                None => None,
            },
            None => None,
        }
    }

    /// All values of a multi-value slot.
    pub fn slot_values(&self, name: &str) -> (r: Vec<String>)
        ensures
            chars::all_texts(r@) == self.slot_list(name@),
    {
        match self.find_slot(name) {
            Some(s) => match &s.values {
                Some(vs) => chars::copy_texts(vs),
                None => {
                    let r: Vec<String> = Vec::new();
                    assert(chars::all_texts(r@) =~= seq![]);
                    r
                },
            },
            None => {
                let r: Vec<String> = Vec::new();
                assert(chars::all_texts(r@) =~= seq![]);
                r
            },
        }
    }

    /// The name of the intent.
    pub fn intent_name(&self) -> (r: Option<&str>)
        ensures
            chars::opt_str(r) == self.intent_text(),
    {
        match &self.request.intent {
            Some(i) => chars::borrow_opt(&i.name),
            None => None,
        }
    }
}

fn application_id_of(a: &Option<ApplicationRef>) -> (r: Option<&str>)
    ensures
        chars::opt_str(r) == application_of(*a),
{
    match a {
        Some(a) => chars::borrow_opt(&a.application_id),
        None => None,
    }
}

} // verus!
