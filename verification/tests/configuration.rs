use rift::config::{
    apply, deserialize_error, join, reload_error, save_result, serialize_error, set_value, Applied,
    ConfigActor, ConfigCommand, ConfigData, Examined, RangeFacts,
};
use rift::config_watcher::{watched_directories, ChangedFile, ConfigWatcher, FileId};
use rift::json::{bool_field, set_path, str_field, u64_field};
use serde_json::Value;

fn data() -> ConfigData {
    ConfigData {
        animate: false,
        animation_duration: 0,
        animation_fps: 0,
        animation_easing: "ease".to_string(),
        mouse_follows_focus: false,
        mouse_hides_on_focus: false,
        focus_follows_mouse: false,
        stack_offset: 0,
        outer_top: 0,
        outer_left: 0,
        outer_bottom: 0,
        outer_right: 0,
        inner_horizontal: 0,
        inner_vertical: 0,
        workspace_names: vec![],
    }
}

fn facts(in_range: bool, text: &str) -> RangeFacts {
    RangeFacts { in_range, text: text.to_string() }
}

fn edited(cmd: ConfigCommand, f: RangeFacts) -> (ConfigData, bool, Vec<String>) {
    match apply(data(), cmd, f) {
        Applied::Edited { config, changed, errors } => (config, changed, errors),
        _ => panic!("expected an edit"),
    }
}

#[test]
fn flags_are_set() {
    assert!(edited(ConfigCommand::SetAnimate(true), facts(true, "")).0.animate);
    assert!(edited(ConfigCommand::SetMouseFollowsFocus(true), facts(true, "")).0.mouse_follows_focus);
    assert!(edited(ConfigCommand::SetMouseHidesOnFocus(true), facts(true, "")).0.mouse_hides_on_focus);
    assert!(edited(ConfigCommand::SetFocusFollowsMouse(true), facts(true, "")).0.focus_follows_mouse);
    let easing = ConfigCommand::SetAnimationEasing("linear".to_string());
    assert_eq!(edited(easing, facts(true, "")).0.animation_easing, "linear");
}

#[test]
fn numbers_out_of_range_are_refused() {
    let bits = 2.5f64.to_bits();
    let (config, changed, errors) =
        edited(ConfigCommand::SetAnimationDuration(bits), facts(true, "2.5"));
    assert!(changed && errors.is_empty());
    assert_eq!(config.animation_duration, bits);
    let (config, changed, errors) =
        edited(ConfigCommand::SetAnimationDuration(bits), facts(false, "9.5"));
    assert!(!changed);
    assert_eq!(config.animation_duration, 0);
    assert_eq!(
        errors,
        vec!["Invalid animation_duration value: 9.5. Must be between 0 and 5"]
    );
    assert_eq!(
        edited(ConfigCommand::SetAnimationFps(bits), facts(false, "-1")).2,
        vec!["Invalid animation_fps value: -1. Must be between 0 and 240"]
    );
    assert_eq!(
        edited(ConfigCommand::SetStackOffset(bits), facts(false, "201")).2,
        vec!["Invalid stack_offset value: 201. Must be between 0 and 200"]
    );
}

#[test]
fn gaps_are_not_negative() {
    let outer = |ok: bool| {
        edited(
            ConfigCommand::SetOuterGaps { top: 1, left: 2, bottom: 3, right: 4 },
            facts(ok, ""),
        )
    };
    assert_eq!(outer(true).0.outer_bottom, 3);
    assert_eq!(outer(false).2, vec!["Invalid outer gap values. All values must be >= 0.0"]);
    let inner = |ok: bool| {
        edited(ConfigCommand::SetInnerGaps { horizontal: 1, vertical: 2 }, facts(ok, ""))
    };
    assert_eq!(inner(true).0.inner_vertical, 2);
    assert_eq!(inner(false).2, vec!["Invalid inner gap values. All values must be >= 0.0"]);
}

#[test]
fn there_are_at_most_thirty_two_names() {
    let names = |n: usize| ConfigCommand::SetWorkspaceNames(vec!["w".to_string(); n]);
    assert_eq!(edited(names(32), facts(true, "")).0.workspace_names.len(), 32);
    let (config, changed, errors) = edited(names(33), facts(true, ""));
    assert!(!changed && config.workspace_names.is_empty());
    assert_eq!(errors, vec!["Too many workspace names provided. Maximum is 32"]);
}

#[test]
fn other_commands_are_done_elsewhere() {
    assert!(matches!(apply(data(), ConfigCommand::GetConfig, facts(true, "")), Applied::Print));
    assert!(matches!(apply(data(), ConfigCommand::SaveConfig, facts(true, "")), Applied::Save));
    assert!(matches!(
        apply(data(), ConfigCommand::ReloadConfig, facts(true, "")),
        Applied::Reload { .. }
    ));
    let set = ConfigCommand::SetKey { key: "a.b".to_string(), value: Value::from(1) };
    assert!(matches!(apply(data(), set, facts(true, "")), Applied::SetValue { key, .. } if key == "a.b"));
}

fn object(fields: Vec<(&str, Value)>) -> Value {
    let mut map = serde_json::Map::new();
    for (name, value) in fields {
        let _ = map.insert(name.to_string(), value);
    }
    Value::Object(map)
}

#[test]
fn values_are_set_deep_inside() {
    let start = object(vec![("settings", object(vec![("animate", Value::from(false))]))]);
    let changed = set_value(start.clone(), "settings.animate", Value::from(true)).unwrap();
    assert_eq!(
        changed,
        object(vec![("settings", object(vec![("animate", Value::from(true))]))])
    );
    let added = set_value(start.clone(), "settings.layout.gap", Value::from(5)).unwrap();
    assert_eq!(
        added,
        object(vec![(
            "settings",
            object(vec![
                ("animate", Value::from(false)),
                ("layout", object(vec![("gap", Value::from(5))])),
            ])
        )])
    );
    assert_eq!(
        set_value(start.clone(), "settings.animate.speed", Value::from(1)).unwrap_err(),
        "Invalid config path: settings.animate.speed"
    );
    assert_eq!(
        set_value(Value::from(3), "x", Value::from(1)).unwrap_err(),
        "Invalid config path: x"
    );
    let empty = set_value(start, "", Value::from(1)).unwrap();
    assert_eq!(u64_field(&empty, ""), Some(1));
}

#[test]
fn paths_lead_through_objects() {
    let mut v = object(vec![]);
    let path = vec!["a".to_string(), "b".to_string()];
    assert!(set_path(&mut v, &path, Value::from("x")));
    assert_eq!(v, object(vec![("a", object(vec![("b", Value::from("x"))]))]));
    assert_eq!(str_field(&object(vec![("s", Value::from("t"))]), "s"), Some("t"));
    assert_eq!(str_field(&v, "a"), None);
    assert_eq!(u64_field(&object(vec![("n", Value::from(-1))]), "n"), None);
    assert_eq!(bool_field(&object(vec![("b", Value::from(true))]), "b"), Some(true));
    assert_eq!(bool_field(&v, "missing"), None);
}

fn examined(changed: bool) -> Examined {
    Examined {
        config: ConfigData { animate: true, ..data() },
        changed,
        errors: vec![],
        issues: vec![],
        fixes: 0,
        remaining: vec![],
    }
}

#[test]
fn only_sound_configurations_are_taken_over() {
    let mut actor = ConfigActor { config: data() };
    let wrong = Examined {
        errors: vec!["a".to_string(), "b".to_string()],
        issues: vec!["c".to_string()],
        ..examined(true)
    };
    assert_eq!(actor.handle_config_command(wrong), Err("a; b".to_string()));
    let invalid = Examined { issues: vec!["c".to_string()], ..examined(false) };
    assert_eq!(actor.handle_config_command(invalid), Err("c".to_string()));
    let unfixable =
        Examined { fixes: 1, remaining: vec!["d".to_string()], ..examined(true) };
    assert_eq!(actor.handle_config_command(unfixable), Err("d".to_string()));
    assert!(!actor.config.animate);
    assert_eq!(actor.handle_config_command(examined(false)), Ok(false));
    assert!(!actor.config.animate);
    assert_eq!(actor.handle_config_command(examined(true)), Ok(true));
    assert!(actor.config.animate);
}

#[test]
fn messages_are_put_together() {
    assert_eq!(join(&vec![]), "");
    assert_eq!(serialize_error("e"), "Failed to serialize config for modification: e");
    assert_eq!(
        deserialize_error("a.b", "e"),
        "Failed to deserialize config after setting 'a.b': e"
    );
    assert_eq!(reload_error("e"), "Failed to reload config: e");
    assert_eq!(save_result(Ok(())), Ok(()));
    assert_eq!(save_result(Err("e".to_string())), Err("Failed to save config: e".to_string()));
}

fn watcher() -> ConfigWatcher {
    ConfigWatcher {
        file: "/home/me/.config/rift/config.toml".to_string(),
        file_name: Some("config.toml".to_string()),
        real_file: Some("/dotfiles/rift.toml".to_string()),
        real_file_id: Some(FileId { device: 1, inode: 2 }),
        enabled: true,
    }
}

fn change(path: &str, name: Option<&str>, real_path: Option<&str>, id: Option<FileId>) -> ChangedFile {
    ChangedFile {
        path: path.to_string(),
        file_name: name.map(|n| n.to_string()),
        real_path: real_path.map(|n| n.to_string()),
        id,
    }
}

#[test]
fn changes_of_the_file_are_noticed() {
    let w = watcher();
    assert!(w.is_relevant(&change("/home/me/.config/rift/config.toml", None, None, None)));
    assert!(w.is_relevant(&change("/dotfiles/rift.toml", None, None, None)));
    assert!(w.is_relevant(&change("/x", None, Some("/dotfiles/rift.toml"), None)));
    assert!(w.is_relevant(&change("/x", None, None, Some(FileId { device: 1, inode: 2 }))));
    assert!(w.is_relevant(&change("/tmp/config.toml", Some("config.toml"), None, None)));
    assert!(!w.is_relevant(&change("/tmp/x.toml", Some("x.toml"), Some("/tmp/x.toml"), None)));
    assert!(!w.is_relevant(&change("/x", None, None, Some(FileId { device: 2, inode: 2 }))));
}

#[test]
fn a_watcher_can_be_switched_off() {
    let mut w = watcher();
    let own = change("/dotfiles/rift.toml", None, None, None);
    assert!(w.wants_reload(&own));
    w.reloaded(None);
    assert!(w.enabled);
    w.reloaded(Some(false));
    assert!(!w.wants_reload(&own));
}

#[test]
fn directories_are_watched_once() {
    let s = |t: &str| Some(t.to_string());
    assert_eq!(watched_directories(s("/a"), s("/b")), vec!["/a", "/b"]);
    assert_eq!(watched_directories(s("/a"), s("/a")), vec!["/a"]);
    assert_eq!(watched_directories(None, s("/b")), vec!["/b"]);
    assert!(watched_directories(None, None).is_empty());
}
