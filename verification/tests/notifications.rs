use serde_json::Value;

use winbar::bar::Bar;
use winbar::komorebi::{
    focused_workspace, link_step, notified_workspace, LinkEvent, LinkStep,
};

fn object(members: Vec<(&str, Value)>) -> Value {
    let mut map = serde_json::Map::new();
    for (key, value) in members {
        map.insert(key.to_string(), value);
    }
    Value::Object(map)
}

fn monitor(focused: Value) -> Value {
    object(vec![("workspaces", object(vec![("focused", focused)]))])
}

fn notification(focused: Value, elements: Value) -> Value {
    object(vec![(
        "state",
        object(vec![(
            "monitors",
            object(vec![("focused", focused), ("elements", elements)]),
        )]),
    )])
}

#[test]
fn focused_monitor_picks_the_workspace() {
    let elements = Value::Array(vec![monitor(Value::from(4)), monitor(Value::from(2))]);
    assert_eq!(focused_workspace(&notification(Value::from(0), elements.clone())), Some(4));
    assert_eq!(focused_workspace(&notification(Value::from(1), elements.clone())), Some(2));
    assert_eq!(focused_workspace(&notification(Value::from(2), elements.clone())), None);
    assert_eq!(focused_workspace(&notification(Value::from(-1), elements.clone())), None);
    assert_eq!(focused_workspace(&notification(Value::from("0"), elements)), None);
}

#[test]
fn missing_steps_name_no_workspace() {
    assert_eq!(focused_workspace(&Value::Null), None);
    assert_eq!(focused_workspace(&object(vec![])), None);
    assert_eq!(focused_workspace(&object(vec![("state", object(vec![]))])), None);
    assert_eq!(focused_workspace(&notification(Value::from(0), Value::from(3))), None);
    assert_eq!(
        focused_workspace(&notification(Value::from(0), Value::Array(vec![object(vec![])]))),
        None
    );
    let text = Value::Array(vec![monitor(Value::from("3"))]);
    assert_eq!(focused_workspace(&notification(Value::from(0), text)), None);
    // An object with a member "0" is no array.
    let elements = object(vec![("0", monitor(Value::from(3)))]);
    assert_eq!(focused_workspace(&notification(Value::from(0), elements)), None);
}

#[test]
fn lines_are_parsed_as_json() {
    let line = r#"{"event":{"type":"x"},"state":{"monitors":{"elements":[
        {"workspaces":{"elements":[],"focused":0}},
        {"name":"two","workspaces":{"elements":[1,2],"focused":5}}],"focused":1},"paused":false}}"#;
    assert_eq!(notified_workspace(line), Some(5));
    assert_eq!(notified_workspace("not json"), None);
    assert_eq!(notified_workspace(""), None);
    assert_eq!(notified_workspace("{}"), None);
    assert_eq!(
        notified_workspace(
            r#"{"state":{"monitors":{"focused":0.0,"elements":[{"workspaces":{"focused":1}}]}}}"#
        ),
        None
    );
    assert_eq!(
        notified_workspace(
            r#"{"state":{"monitors":{"focused":0,"elements":[{"workspaces":{"focused":18446744073709551615}}]}}}"#
        ),
        Some(u64::MAX)
    );
}

#[test]
fn bar_is_drawn_again_only_for_another_workspace() {
    let line = r#"{"state":{"monitors":{"focused":0,"elements":[{"workspaces":{"focused":3}}]}}}"#;
    let mut bar = Bar::new();
    assert!(!bar.notified(line));
    assert_eq!(bar.active_workspace, 3);
    let mut bar = Bar::new();
    bar.created(1);
    assert!(bar.notified(line));
    assert!(!bar.notified(line));
    assert!(!bar.notified("garbage"));
    assert_eq!(bar.active_workspace, 3);
    assert!(bar.workspace_focused(0));
    assert!(!bar.workspace_focused(0));
}

#[test]
fn lost_connection_is_subscribed_again() {
    assert_eq!(link_step(LinkEvent::Started), LinkStep::Subscribe);
    assert_eq!(link_step(LinkEvent::Subscribed), LinkStep::Listen);
    assert_eq!(link_step(LinkEvent::Refused), LinkStep::Wait(2));
    assert_eq!(link_step(LinkEvent::ConnectionEnded), LinkStep::Listen);
    assert_eq!(link_step(LinkEvent::NotAccepted), LinkStep::Listen);
    assert_eq!(link_step(LinkEvent::Closed), LinkStep::Wait(2));
    assert_eq!(link_step(LinkEvent::Waited), LinkStep::Subscribe);
}
