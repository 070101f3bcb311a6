//! Activity records and how they are read from a `SET_ACTIVITY` command.
use vstd::prelude::*;

use crate::json::{
    as_text, as_unsigned, float_as_unsigned, float_bits_as_u64, is_null, is_object, json_of, member,
    JsonModel,
};

verus! {

/// A numeric timestamp below this is in seconds since the epoch; from it on,
/// in milliseconds.
pub const SECONDS_LIMIT: u64 = 10000000000;

/// The instant, in milliseconds since the epoch, that a client's timestamp
/// stands for.
pub open spec fn normalized_millis(ts: u64) -> u64 {
    if ts < SECONDS_LIMIT {
        (ts * 1000) as u64
    } else {
        ts
    }
}

/// Reads a client's timestamp as milliseconds since the epoch: a value under
/// `SECONDS_LIMIT` counts seconds, any other counts milliseconds.
pub fn normalize_timestamp(ts: u64) -> (r: u64)
    ensures
        r == normalized_millis(ts),
        ts < SECONDS_LIMIT ==> r == ts * 1000,
        ts >= SECONDS_LIMIT ==> r == ts,
{
    if ts < SECONDS_LIMIT {
        ts * 1000
    } else {
        ts
    }
}

/// The integer that a JSON number gives as a timestamp: a float is cut
/// toward zero and a negative number gives zero. Anything else gives none.
pub open spec fn timestamp_number(j: JsonModel) -> Option<u64> {
    match j {
        JsonModel::PosInt(n) => Some(n),
        JsonModel::NegInt(_) => Some(0u64),
        JsonModel::Float(bits) => Some(float_bits_as_u64(bits)),
        _ => None,
    }
}

/// Reads a JSON number as a timestamp integer: a non-negative integer as
/// it is, a float cut toward zero, a negative number as zero; none for a
/// value that is not a number.
pub fn number_to_u64(v: &serde_json::Value) -> (r: Option<u64>)
    ensures
        r == timestamp_number(json_of(*v)),
{
    match as_unsigned(v) {
        Some(n) => Some(n),
        None => float_as_unsigned(v),
    }
}

/// What a client shows: four display texts and an optional start and end,
/// each in milliseconds since the epoch.
#[derive(Debug)]
pub struct ActivityRecord {
    pub large_text: String,
    pub small_text: String,
    pub state: String,
    pub details: String,
    pub start_time: Option<u64>,
    pub end_time: Option<u64>,
}

pub ghost struct ActivityView {
    pub large_text: Seq<char>,
    pub small_text: Seq<char>,
    pub state: Seq<char>,
    pub details: Seq<char>,
    pub start_time: Option<u64>,
    pub end_time: Option<u64>,
}

impl View for ActivityRecord {
    type V = ActivityView;

    open spec fn view(&self) -> ActivityView {
        ActivityView {
            large_text: self.large_text@,
            small_text: self.small_text@,
            state: self.state@,
            details: self.details@,
            start_time: self.start_time,
            end_time: self.end_time,
        }
    }
}

impl ActivityRecord {
    /// A copy of this record.
    pub fn duplicate(&self) -> (r: ActivityRecord)
        ensures
            r@ == self@,
    {
        ActivityRecord {
            large_text: self.large_text.clone(),
            small_text: self.small_text.clone(),
            state: self.state.clone(),
            details: self.details.clone(),
            start_time: self.start_time,
            end_time: self.end_time,
        }
    }
}

/// A command frame's payload: the command's name and the activity it carries.
#[derive(Debug)]
pub struct Command {
    pub cmd: String,
    pub activity: ActivityRecord,
}

pub ghost struct CommandView {
    pub cmd: Seq<char>,
    pub activity: ActivityView,
}

impl View for Command {
    type V = CommandView;

    open spec fn view(&self) -> CommandView {
        CommandView { cmd: self.cmd@, activity: self.activity@ }
    }
}

/// A text member of an object: empty where it is absent, none (a malformed
/// payload) where it is not a string.
pub open spec fn text_member(m: Map<Seq<char>, JsonModel>, key: Seq<char>) -> Option<Seq<char>> {
    if !m.contains_key(key) {
        Some(Seq::empty())
    } else {
        match m[key] {
            JsonModel::Str(s) => Some(s),
            _ => None,
        }
    }
}

/// An object member of an object: empty where it is absent, none (a
/// malformed payload) where it is not an object.
pub open spec fn object_member(m: Map<Seq<char>, JsonModel>, key: Seq<char>) -> Option<
    Map<Seq<char>, JsonModel>,
> {
    if !m.contains_key(key) {
        Some(Map::empty())
    } else {
        match m[key] {
            JsonModel::Object(o) => Some(o),
            _ => None,
        }
    }
}

/// A timestamp member of an object, as an instant: absent where the member
/// is absent or null, none (a malformed payload) where it is present and
/// not a number.
pub open spec fn time_member(m: Map<Seq<char>, JsonModel>, key: Seq<char>) -> Option<Option<u64>> {
    if !m.contains_key(key) || m[key] is Null {
        Some(None)
    } else {
        match timestamp_number(m[key]) {
            Some(ts) => Some(Some(normalized_millis(ts))),
            None => None,
        }
    }
}

/// The record that an `activity` object describes, or none where one of its
/// members has the wrong type.
pub open spec fn activity_of(a: Map<Seq<char>, JsonModel>) -> Option<ActivityView> {
    match (object_member(a, "assets"@), object_member(a, "timestamps"@)) {
        (Some(assets), Some(times)) => match (
            text_member(assets, "large_text"@),
            text_member(assets, "small_text"@),
            text_member(a, "state"@),
            text_member(a, "details"@),
            time_member(times, "start"@),
            time_member(times, "end"@),
        ) {
            (Some(large), Some(small), Some(state), Some(details), Some(start), Some(end)) => Some(
                ActivityView {
                    large_text: large,
                    small_text: small,
                    state: state,
                    details: details,
                    start_time: start,
                    end_time: end,
                },
            ),
            _ => None,
        },
        _ => None,
    }
}

/// The command that a payload holds: an object with a string `cmd` and an
/// optional `args.activity`; none where the payload has another shape.
pub open spec fn command_of(j: JsonModel) -> Option<CommandView> {
    match j {
        JsonModel::Object(m) => if m.contains_key("cmd"@) && m["cmd"@] is Str {
            match object_member(m, "args"@) {
                Some(args) => match object_member(args, "activity"@) {
                    Some(act) => match activity_of(act) {
                        Some(a) => Some(CommandView { cmd: m["cmd"@]->Str_0, activity: a }),
                        None => None,
                    },
                    None => None,
                },
                None => None,
            }
        } else {
            None
        },
        _ => None,
    }
}

/// The members that a lookup sees: those of an object, or none at all.
pub open spec fn scope_members(scope: Option<&serde_json::Value>) -> Map<Seq<char>, JsonModel> {
    match scope {
        Some(v) => json_of(*v)->Object_0,
        None => Map::empty(),
    }
}

/// A lookup scope is absent or an object.
pub open spec fn scope_ok(scope: Option<&serde_json::Value>) -> bool {
    scope is Some ==> json_of(*scope->Some_0) is Object
}

fn text_in(scope: Option<&serde_json::Value>, key: &str) -> (r: Option<String>)
    requires
        scope_ok(scope),
    ensures
        match r {
            Some(s) => text_member(scope_members(scope), key@) == Some(s@),
            None => text_member(scope_members(scope), key@) is None,
        },
{
    let found = match scope {
        Some(obj) => member(obj, key),
        None => None,
    };
    match found {
        None => Some(String::new()),
        Some(x) => match as_text(x) {
            Some(s) => Some(s.to_owned()),
            None => None,
        },
    }
}

fn object_in<'a>(scope: Option<&'a serde_json::Value>, key: &str) -> (r: Result<
    Option<&'a serde_json::Value>,
    (),
>)
    requires
        scope_ok(scope),
    ensures
        match r {
            Ok(inner) => scope_ok(inner) && object_member(scope_members(scope), key@) == Some(
                scope_members(inner),
            ),
            Err(_) => object_member(scope_members(scope), key@) is None,
        },
{
    let found = match scope {
        Some(obj) => member(obj, key),
        None => None,
    };
    match found {
        None => Ok(None),
        Some(x) => if is_object(x) {
            Ok(Some(x))
        } else {
            Err(())
        },
    }
}

fn time_in(scope: Option<&serde_json::Value>, key: &str) -> (r: Result<Option<u64>, ()>)
    requires
        scope_ok(scope),
    ensures
        match r {
            Ok(t) => time_member(scope_members(scope), key@) == Some(t),
            Err(_) => time_member(scope_members(scope), key@) is None,
        },
{
    let found = match scope {
        Some(obj) => member(obj, key),
        None => None,
    };
    match found {
        None => Ok(None),
        Some(x) => match number_to_u64(x) {
            Some(ts) => Ok(Some(normalize_timestamp(ts))),
            None => if is_null(x) {
                Ok(None)
            } else {
                Err(())
            },
        },
    }
}

fn activity_in(scope: Option<&serde_json::Value>) -> (r: Option<ActivityRecord>)
    requires
        scope_ok(scope),
    ensures
        match r {
            Some(a) => activity_of(scope_members(scope)) == Some(a@),
            None => activity_of(scope_members(scope)) is None,
        },
{
    let assets = match object_in(scope, "assets") {
        Ok(a) => a,
        Err(_) => return None,
    };
    let times = match object_in(scope, "timestamps") {
        Ok(t) => t,
        Err(_) => return None,
    };
    let large_text = match text_in(assets, "large_text") {
        Some(s) => s,
        None => return None,
    };
    let small_text = match text_in(assets, "small_text") {
        Some(s) => s,
        None => return None,
    };
    let state = match text_in(scope, "state") {
        Some(s) => s,
        None => return None,
    };
    let details = match text_in(scope, "details") {
        Some(s) => s,
        None => return None,
    };
    let start_time = match time_in(times, "start") {
        Ok(t) => t,
        Err(_) => return None,
    };
    let end_time = match time_in(times, "end") {
        Ok(t) => t,
        Err(_) => return None,
    };
    Some(ActivityRecord { large_text, small_text, state, details, start_time, end_time })
}

/// Reads a command frame's payload. Absent members take their defaults; a
/// member of the wrong type, or a missing `cmd`, makes the payload malformed.
pub fn parse_command(payload: &serde_json::Value) -> (r: Option<Command>)
    ensures
        match r {
            Some(c) => command_of(json_of(*payload)) == Some(c@),
            None => command_of(json_of(*payload)) is None,
        },
{
    if !is_object(payload) {
        return None;
    }
    let cmd = match member(payload, "cmd") {
        Some(c) => match as_text(c) {
            Some(s) => s.to_owned(),
            None => return None,
        },
        None => return None,
    };
    let args = match object_in(Some(payload), "args") {
        Ok(a) => a,
        Err(_) => return None,
    };
    let act = match object_in(args, "activity") {
        Ok(a) => a,
        Err(_) => return None,
    };
    match activity_in(act) {
        Some(activity) => Some(Command { cmd, activity }),
        None => None,
    }
}

/// The identity that a handshake payload declares: its `client_id` string,
/// or the empty string where there is none.
pub open spec fn handshake_identity(j: JsonModel) -> Seq<char> {
    match j {
        JsonModel::Object(m) => if m.contains_key("client_id"@) && m["client_id"@] is Str {
            m["client_id"@]->Str_0
        } else {
            Seq::empty()
        },
        _ => Seq::empty(),
    }
}

/// Reads the identity from a handshake payload.
pub fn parse_handshake(payload: &serde_json::Value) -> (r: String)
    ensures
        r@ == handshake_identity(json_of(*payload)),
{
    match member(payload, "client_id") {
        Some(c) => match as_text(c) {
            Some(s) => s.to_owned(),
            None => String::new(),
        },
        None => String::new(),
    }
}

} // verus!
