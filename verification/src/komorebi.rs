//! Reading komorebi's notifications: each is one line of JSON with the whole
//! state of the window manager, of which the bar needs the workspace that has
//! the focus on the monitor that has the focus.

use vstd::prelude::*;

verus! {

/// `serde_json::Value`: a parsed JSON document.
#[verifier::external_type_specification]
#[verifier::external_body]
pub struct ExValue(serde_json::Value);

/// `serde_json::Error`: why a text is not JSON.
#[verifier::external_type_specification]
#[verifier::external_body]
pub struct ExError(serde_json::Error);

/// What a JSON document holds, as far as a notification is read.
pub enum JsonTree {
    /// An object, by its members.
    Object(Map<Seq<char>, JsonTree>),
    /// An array, by its elements.
    Array(Seq<JsonTree>),
    /// An integer from 0 to `u64::MAX`.
    Unsigned(u64),
    /// Any other value.
    Other,
}

/// What a `serde_json::Value` holds: an object by its members, with each key by
/// its characters; an array by its elements; a number by its value if it is an
/// integer from 0 to `u64::MAX`. Nulls, booleans, strings and the other numbers
/// are not told apart.
pub uninterp spec fn json_tree(value: serde_json::Value) -> JsonTree;

/// What `serde_json::from_str` reads from a text, nothing if it is not JSON.
pub uninterp spec fn parsed_json(text: Seq<char>) -> Option<JsonTree>;

/// `serde_json::from_str` for a `serde_json::Value`: what it reads, and whether
/// it reads anything, depends on the text alone.
#[verifier::external_body]
fn parse_json(text: &str) -> (parsed: Result<serde_json::Value, serde_json::Error>)
    ensures
        parsed is Ok <==> parsed_json(text@) is Some,
        parsed matches Ok(value) ==> json_tree(value) == parsed_json(text@)->0,
{
    serde_json::from_str(text)
}

/// `serde_json::Value::get` with a string: the member of an object under that
/// key; nothing if there is none, or if the value is not an object.
#[verifier::external_body]
fn member<'a>(value: &'a serde_json::Value, key: &str) -> (found: Option<&'a serde_json::Value>)
    ensures
        found is Some <==> member_of(Some(json_tree(*value)), key@) is Some,
        found matches Some(inner) ==> Some(json_tree(*inner)) == member_of(
            Some(json_tree(*value)),
            key@,
        ),
{
    value.get(key)
}

/// `serde_json::Value::as_u64`: the number, if the value is an integer from 0
/// to `u64::MAX`.
pub assume_specification[ serde_json::Value::as_u64 ](value: &serde_json::Value) -> (number: Option<
    u64,
>)
    ensures
        number == number_of(Some(json_tree(*value))),
;

/// `serde_json::Value::as_array`: the elements, if the value is an array.
pub assume_specification[ serde_json::Value::as_array ](value: &serde_json::Value) -> (elements:
    Option<&Vec<serde_json::Value>>)
    ensures
        elements is Some <==> elements_of(Some(json_tree(*value))) is Some,
        elements matches Some(list) ==> {
            let trees = elements_of(Some(json_tree(*value)))->0;
            &&& list@.len() == trees.len()
            &&& forall|i: int| 0 <= i < trees.len() ==> json_tree(#[trigger] list@[i]) == trees[i]
        },
;

/// The member of an object under a key.
pub open spec fn member_of(tree: Option<JsonTree>, key: Seq<char>) -> Option<JsonTree> {
    match tree {
        Some(JsonTree::Object(members)) => if members.contains_key(key) {
            Some(members[key])
        } else {
            None
        },
        _ => None,
    }
}

/// The elements of an array.
pub open spec fn elements_of(tree: Option<JsonTree>) -> Option<Seq<JsonTree>> {
    match tree {
        Some(JsonTree::Array(elements)) => Some(elements),
        _ => None,
    }
}

/// The value of an integer from 0 to `u64::MAX`.
pub open spec fn number_of(tree: Option<JsonTree>) -> Option<u64> {
    match tree {
        Some(JsonTree::Unsigned(number)) => Some(number),
        _ => None,
    }
}

/// The workspace that has the focus on the monitor that has the focus:
/// `state.monitors.focused` picks one of `state.monitors.elements`, and of that
/// one `workspaces.focused` is the answer. There is none where a step of the
/// way is missing or of another kind.
pub open spec fn focused_workspace_of(notification: JsonTree) -> Option<u64> {
    let monitors = member_of(member_of(Some(notification), "state"@), "monitors"@);
    match (
        number_of(member_of(monitors, "focused"@)),
        elements_of(member_of(monitors, "elements"@)),
    ) {
        (Some(focused), Some(elements)) => {
            let monitor = focused as usize as int;
            if monitor < elements.len() {
                number_of(member_of(member_of(Some(elements[monitor]), "workspaces"@), "focused"@))
            } else {
                None
            }
        },
        _ => None,
    }
}

/// The workspace that has the focus in a line of text, if the line is a
/// notification.
pub open spec fn notified_workspace_of(line: Seq<char>) -> Option<u64> {
    match parsed_json(line) {
        Some(notification) => focused_workspace_of(notification),
        None => None,
    }
}

/// Which workspace has the focus, by a parsed notification?
pub fn focused_workspace(notification: &serde_json::Value) -> (workspace: Option<u64>)
    ensures
        workspace == focused_workspace_of(json_tree(*notification)),
{
    if let Some(state) = member(notification, "state") {
        if let Some(monitors) = member(state, "monitors") {
            if let Some(focused) = member(monitors, "focused") {
                if let Some(index) = focused.as_u64() {
                    if let Some(list) = member(monitors, "elements") {
                        if let Some(elements) = list.as_array() {
                            let monitor: usize = #[verifier::truncate]
                            (index as usize);
                            if monitor < elements.len() {
                                if let Some(workspaces) = member(&elements[monitor], "workspaces") {
                                    if let Some(workspace) = member(workspaces, "focused") {
                                        return workspace.as_u64();
                                    }
                                }
                            }
                        }
                    }
                }
            }
        }
    }
    None
}

/// Which workspace has the focus, by a line that komorebi sent?
pub fn notified_workspace(line: &str) -> (workspace: Option<u64>)
    ensures
        workspace == notified_workspace_of(line@),
{
    match parse_json(line) {
        Ok(notification) => focused_workspace(&notification),
        Err(_) => None,
    }
}

/// Seconds to wait before subscribing again.
pub const RETRY_SECONDS: u64 = 2;

/// What became of the last step of staying in touch with komorebi.
#[derive(Clone, Copy, Debug, PartialEq, Eq, Structural)]
pub enum LinkEvent {
    /// The bar starts.
    Started,
    /// The subscription stands.
    Subscribed,
    /// The subscription was refused: komorebi may not be running yet.
    Refused,
    /// A connection ended. komorebi opens others for what follows.
    ConnectionEnded,
    /// A connection could not be accepted.
    NotAccepted,
    /// komorebi closed the link: it is going away, and may be starting again.
    Closed,
    /// The wait is over.
    Waited,
}

/// The next step of staying in touch with komorebi.
#[derive(Clone, Copy, Debug, PartialEq, Eq, Structural)]
pub enum LinkStep {
    /// Subscribe to its notifications.
    Subscribe,
    /// Accept a connection and read its notifications.
    Listen,
    /// Wait for some seconds.
    Wait(u64),
}

/// The next step: subscribe, listen until komorebi closes the link, and after
/// any failure wait and subscribe again, for as long as the bar runs.
pub open spec fn next_link_step(event: LinkEvent) -> LinkStep {
    match event {
        LinkEvent::Started => LinkStep::Subscribe,
        LinkEvent::Subscribed => LinkStep::Listen,
        LinkEvent::Refused => LinkStep::Wait(RETRY_SECONDS),
        LinkEvent::ConnectionEnded => LinkStep::Listen,
        LinkEvent::NotAccepted => LinkStep::Listen,
        LinkEvent::Closed => LinkStep::Wait(RETRY_SECONDS),
        LinkEvent::Waited => LinkStep::Subscribe,
    }
}

/// What comes next in staying in touch with komorebi?
pub fn link_step(event: LinkEvent) -> (step: LinkStep)
    ensures
        step == next_link_step(event),
{
    match event {
        LinkEvent::Started => LinkStep::Subscribe,
        LinkEvent::Subscribed => LinkStep::Listen,
        LinkEvent::Refused => LinkStep::Wait(RETRY_SECONDS),
        LinkEvent::ConnectionEnded => LinkStep::Listen,
        LinkEvent::NotAccepted => LinkStep::Listen,
        LinkEvent::Closed => LinkStep::Wait(RETRY_SECONDS),
        LinkEvent::Waited => LinkStep::Subscribe,
    }
}

} // verus!
