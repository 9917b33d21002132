//! Commands that change the configuration while the window manager runs.
//!
//! Numbers are floating-point and carried as their bits; whether one is in range, and how it is
//! written, comes along with a command.

use serde_json::Value;
use vstd::prelude::*;
use vstd::string::*;

use crate::json::set_path;
#[allow(unused_imports)]
use crate::json::{can_set, is_set, object_fields};
use crate::text::split_text;
#[allow(unused_imports)]
use crate::text::{split, views};

verus! {

pub enum ConfigCommand {
    SetAnimate(bool),
    SetAnimationDuration(u64),
    SetAnimationFps(u64),
    SetAnimationEasing(String),
    SetMouseFollowsFocus(bool),
    SetMouseHidesOnFocus(bool),
    SetFocusFollowsMouse(bool),
    SetStackOffset(u64),
    SetOuterGaps { top: u64, left: u64, bottom: u64, right: u64 },
    SetInnerGaps { horizontal: u64, vertical: u64 },
    SetWorkspaceNames(Vec<String>),
    SetKey { key: String, value: Value },
    GetConfig,
    SaveConfig,
    ReloadConfig,
}

/// The part of the configuration that commands of their own change.
pub struct ConfigData {
    pub animate: bool,
    pub animation_duration: u64,
    pub animation_fps: u64,
    pub animation_easing: String,
    pub mouse_follows_focus: bool,
    pub mouse_hides_on_focus: bool,
    pub focus_follows_mouse: bool,
    pub stack_offset: u64,
    pub outer_top: u64,
    pub outer_left: u64,
    pub outer_bottom: u64,
    pub outer_right: u64,
    pub inner_horizontal: u64,
    pub inner_vertical: u64,
    pub workspace_names: Vec<String>,
}

/// What is known of the number in a command.
pub struct RangeFacts {
    /// Whether it is in range, or all of them are not negative.
    pub in_range: bool,
    /// How it is written.
    pub text: String,
}

/// What a command leads to.
pub enum Applied {
    /// The new configuration and whether it was changed.
    Edited { config: ConfigData, changed: bool, errors: Vec<String> },
    /// Set a value in the configuration as JSON, with [`set_value`].
    SetValue { config: ConfigData, key: String, value: Value },
    /// Write the configuration to the log; nothing else happens.
    Print,
    /// Save the configuration to its file; nothing else happens.
    Save,
    /// Read the configuration from its file.
    Reload { config: ConfigData },
}

/// The highest number of workspace names.
pub const MAX_WORKSPACE_NAMES: usize = 32;

/// The message for a number that is out of range.
pub open spec fn range_message(
    name: Seq<char>,
    value: Seq<char>,
    min: Seq<char>,
    max: Seq<char>,
) -> Seq<char> {
    "Invalid "@ + name + " value: "@ + value + ". Must be between "@ + min + " and "@ + max
}

fn range_error(name: &str, value: &str, min: &str, max: &str) -> (r: String)
    ensures
        r@ == range_message(name@, value@, min@, max@),
{
    let mut r: String = String::new();
    r.append("Invalid ");
    r.append(name);
    r.append(" value: ");
    r.append(value);
    r.append(". Must be between ");
    r.append(min);
    r.append(" and ");
    r.append(max);
    assert(r@ =~= range_message(name@, value@, min@, max@));
    r
}

fn single(message: String) -> (r: Vec<String>)
    ensures
        views(r@) == seq![message@],
{
    let mut r: Vec<String> = Vec::new();
    r.push(message);
    assert(views(r@) =~= seq![message@]);
    r
}

fn no_errors() -> (r: Vec<String>)
    ensures
        views(r@) == Seq::<Seq<char>>::empty(),
{
    let r: Vec<String> = Vec::new();
    assert(views(r@) =~= Seq::<Seq<char>>::empty());
    r
}

/// The number that a command sets, by its name and its range, if it has one.
pub open spec fn range_of(cmd: ConfigCommand) -> Option<(Seq<char>, Seq<char>)> {
    match cmd {
        ConfigCommand::SetAnimationDuration(_) => Some(("animation_duration"@, "5"@)),
        ConfigCommand::SetAnimationFps(_) => Some(("animation_fps"@, "240"@)),
        ConfigCommand::SetStackOffset(_) => Some(("stack_offset"@, "200"@)),
        _ => None,
    }
}

/// What is wrong with a command.
pub open spec fn problems(cmd: ConfigCommand, facts: RangeFacts) -> Seq<Seq<char>> {
    match range_of(cmd) {
        Some(range) => if facts.in_range {
            Seq::empty()
        } else {
            seq![range_message(range.0, facts.text@, "0"@, range.1)]
        },
        None => match cmd {
            ConfigCommand::SetOuterGaps { .. } => if facts.in_range {
                Seq::empty()
            } else {
                seq!["Invalid outer gap values. All values must be >= 0.0"@]
            },
            ConfigCommand::SetInnerGaps { .. } => if facts.in_range {
                Seq::empty()
            } else {
                seq!["Invalid inner gap values. All values must be >= 0.0"@]
            },
            ConfigCommand::SetWorkspaceNames(names) => if names@.len() <= MAX_WORKSPACE_NAMES {
                Seq::empty()
            } else {
                seq!["Too many workspace names provided. Maximum is 32"@]
            },
            _ => Seq::empty(),
        },
    }
}

impl ConfigData {
    /// The configuration with what a command sets.
    pub open spec fn edited(self, cmd: ConfigCommand) -> ConfigData {
        match cmd {
            ConfigCommand::SetAnimate(v) => ConfigData { animate: v, ..self },
            ConfigCommand::SetAnimationDuration(v) => ConfigData { animation_duration: v, ..self },
            ConfigCommand::SetAnimationFps(v) => ConfigData { animation_fps: v, ..self },
            ConfigCommand::SetAnimationEasing(v) => ConfigData { animation_easing: v, ..self },
            ConfigCommand::SetMouseFollowsFocus(v) => ConfigData {
                mouse_follows_focus: v,
                ..self
            },
            ConfigCommand::SetMouseHidesOnFocus(v) => ConfigData {
                mouse_hides_on_focus: v,
                ..self
            },
            ConfigCommand::SetFocusFollowsMouse(v) => ConfigData {
                focus_follows_mouse: v,
                ..self
            },
            ConfigCommand::SetStackOffset(v) => ConfigData { stack_offset: v, ..self },
            ConfigCommand::SetOuterGaps { top, left, bottom, right } => ConfigData {
                outer_top: top,
                outer_left: left,
                outer_bottom: bottom,
                outer_right: right,
                ..self
            },
            ConfigCommand::SetInnerGaps { horizontal, vertical } => ConfigData {
                inner_horizontal: horizontal,
                inner_vertical: vertical,
                ..self
            },
            ConfigCommand::SetWorkspaceNames(names) => ConfigData {
                workspace_names: names,
                ..self
            },
            _ => self,
        }
    }
}

/// Whether `r` is what a command leads to.
pub open spec fn is_applied(
    config: ConfigData,
    cmd: ConfigCommand,
    facts: RangeFacts,
    r: Applied,
) -> bool {
    match cmd {
        ConfigCommand::SetKey { key, value } => r == (Applied::SetValue { config, key, value }),
        ConfigCommand::GetConfig => r is Print,
        ConfigCommand::SaveConfig => r is Save,
        ConfigCommand::ReloadConfig => r == (Applied::Reload { config }),
        _ => {
            let wrong = problems(cmd, facts);
            r matches Applied::Edited { config: new, changed, errors } && views(errors@) == wrong
                && changed == (wrong.len() == 0) && new == (if wrong.len() == 0 {
                config.edited(cmd)
            } else {
                config
            })
        },
    }
}

/// Applies a command to a configuration.
pub fn apply(config: ConfigData, cmd: ConfigCommand, facts: RangeFacts) -> (r: Applied)
    ensures
        is_applied(config, cmd, facts, r),
{
    let mut config = config;
    let errors: Vec<String> = match cmd {
        ConfigCommand::SetAnimate(v) => {
            config.animate = v;
            no_errors()
        },
        ConfigCommand::SetAnimationDuration(v) => {
            if facts.in_range {
                config.animation_duration = v;
                no_errors()
            } else {
                single(range_error("animation_duration", facts.text.as_str(), "0", "5"))
            }
        },
        ConfigCommand::SetAnimationFps(v) => {
            if facts.in_range {
                config.animation_fps = v;
                no_errors()
            } else {
                single(range_error("animation_fps", facts.text.as_str(), "0", "240"))
            }
        },
        ConfigCommand::SetAnimationEasing(v) => {
            config.animation_easing = v;
            no_errors()
        },
        ConfigCommand::SetMouseFollowsFocus(v) => {
            config.mouse_follows_focus = v;
            no_errors()
        },
        ConfigCommand::SetMouseHidesOnFocus(v) => {
            config.mouse_hides_on_focus = v;
            no_errors()
        },
        ConfigCommand::SetFocusFollowsMouse(v) => {
            config.focus_follows_mouse = v;
            no_errors()
        },
        ConfigCommand::SetStackOffset(v) => {
            if facts.in_range {
                config.stack_offset = v;
                no_errors()
            } else {
                single(range_error("stack_offset", facts.text.as_str(), "0", "200"))
            }
        },
        ConfigCommand::SetOuterGaps { top, left, bottom, right } => {
            if facts.in_range {
                config.outer_top = top;
                config.outer_left = left;
                config.outer_bottom = bottom;
                config.outer_right = right;
                no_errors()
            } else {
                single("Invalid outer gap values. All values must be >= 0.0".to_string())
            }
        },
        ConfigCommand::SetInnerGaps { horizontal, vertical } => {
            if facts.in_range {
                config.inner_horizontal = horizontal;
                config.inner_vertical = vertical;
                no_errors()
            } else {
                single("Invalid inner gap values. All values must be >= 0.0".to_string())
            }
        },
        ConfigCommand::SetWorkspaceNames(names) => {
            if names.len() <= MAX_WORKSPACE_NAMES {
                config.workspace_names = names;
                no_errors()
            } else {
                single("Too many workspace names provided. Maximum is 32".to_string())
            }
        },
        ConfigCommand::SetKey { key, value } => {
            return Applied::SetValue { config, key, value };
        },
        ConfigCommand::GetConfig => {
            return Applied::Print;
        },
        ConfigCommand::SaveConfig => {
            return Applied::Save;
        },
        ConfigCommand::ReloadConfig => {
            return Applied::Reload { config };
        },
    };
    let changed: bool = errors.len() == 0;
    assert(views(errors@).len() == errors@.len());
    Applied::Edited { config, changed, errors }
}

/// The configuration as JSON with the value at a key set; the key names the fields on the way,
/// parted by dots. The key is refused if something on the way is no object.
pub fn set_value(mut config: Value, key: &str, value: Value) -> (r: Result<Value, String>)
    ensures
        match r {
            Ok(v) => can_set(object_fields(config), split(key@, '.')) && is_set(
                object_fields(config),
                object_fields(v),
                split(key@, '.'),
                value,
            ),
            Err(message) => !can_set(object_fields(config), split(key@, '.')) && message@
                == "Invalid config path: "@ + key@,
        },
{
    let parts = split_text(key, '.');
    proof {
        crate::text::split_is_never_empty(key@, '.');
        assert(views(parts@).len() == parts@.len());
    }
    if set_path(&mut config, &parts, value) {
        Ok(config)
    } else {
        let mut message: String = String::new();
        message.append("Invalid config path: ");
        message.append(key);
        assert(message@ =~= "Invalid config path: "@ + key@);
        Err(message)
    }
}

/// The messages one after another, parted by semicolons.
pub open spec fn joined(messages: Seq<Seq<char>>) -> Seq<char>
    decreases messages.len(),
{
    if messages.len() == 0 {
        Seq::empty()
    } else if messages.len() == 1 {
        messages[0]
    } else {
        joined(messages.drop_last()) + "; "@ + messages.last()
    }
}

pub fn join(messages: &Vec<String>) -> (r: String)
    ensures
        r@ == joined(views(messages@)),
{
    let mut r: String = String::new();
    let mut i: usize = 0;
    assert(r@ =~= joined(views(messages@).take(0)));
    while i < messages.len()
        invariant
            i <= messages@.len(),
            r@ == joined(views(messages@).take(i as int)),
        decreases messages@.len() - i,
    {
        assert(views(messages@).take(i + 1).drop_last() =~= views(messages@).take(i as int));
        assert(views(messages@).take(i + 1).last() == messages@[i as int]@);
        if i > 0 {
            r.append("; ");
        }
        r.append(messages[i].as_str());
        assert(r@ =~= joined(views(messages@).take(i + 1)));
        i = i + 1;
    }
    assert(views(messages@).take(i as int) =~= views(messages@));
    r
}

/// A configuration that was edited and examined.
pub struct Examined {
    /// The configuration, with values brought into range if it was changed.
    pub config: ConfigData,
    pub changed: bool,
    /// What was wrong with the command.
    pub errors: Vec<String>,
    /// What is wrong with the configuration.
    pub issues: Vec<String>,
    /// The number of values that were brought into range.
    pub fixes: usize,
    /// What is wrong with it after that.
    pub remaining: Vec<String>,
}

impl Examined {
    /// Why the configuration is refused.
    pub open spec fn refusal(self) -> Option<Seq<char>> {
        if self.errors@.len() > 0 {
            Some(joined(views(self.errors@)))
        } else if self.issues@.len() > 0 {
            Some(joined(views(self.issues@)))
        } else if self.changed && self.fixes > 0 && self.remaining@.len() > 0 {
            Some(joined(views(self.remaining@)))
        } else {
            None
        }
    }
}

pub struct ConfigActor {
    pub config: ConfigData,
}

impl ConfigActor {
    /// Takes an examined configuration over, unless something is wrong with it or nothing changed.
    /// `Ok(true)`: the reactor is to be told.
    pub fn handle_config_command(&mut self, examined: Examined) -> (r: Result<bool, String>)
        ensures
            match r {
                Ok(told) => examined.refusal() is None && told == examined.changed,
                Err(message) => examined.refusal() == Some(message@),
            },
            final(self).config == (if r == Ok::<bool, String>(true) {
                examined.config
            } else {
                old(self).config
            }),
    {
        if examined.errors.len() > 0 {
            return Err(join(&examined.errors));
        }
        if examined.issues.len() > 0 {
            return Err(join(&examined.issues));
        }
        if !examined.changed {
            return Ok(false);
        }
        if examined.fixes > 0 && examined.remaining.len() > 0 {
            return Err(join(&examined.remaining));
        }
        self.config = examined.config;
        Ok(true)
    }
}

fn prefixed(prefix: &str, text: &str) -> (r: String)
    ensures
        r@ == prefix@ + text@,
{
    let mut r: String = String::new();
    r.append(prefix);
    r.append(text);
    assert(r@ =~= prefix@ + text@);
    r
}

/// Why the configuration could not be turned into JSON.
pub fn serialize_error(error: &str) -> (r: String)
    ensures
        r@ == "Failed to serialize config for modification: "@ + error@,
{
    prefixed("Failed to serialize config for modification: ", error)
}

/// Why the JSON is no configuration any more after a key was set.
pub fn deserialize_error(key: &str, error: &str) -> (r: String)
    ensures
        r@ == "Failed to deserialize config after setting '"@ + key@ + "': "@ + error@,
{
    let mut r: String = prefixed("Failed to deserialize config after setting '", key);
    r.append("': ");
    r.append(error);
    assert(r@ =~= "Failed to deserialize config after setting '"@ + key@ + "': "@ + error@);
    r
}

/// What saving came to.
pub fn save_result(saved: Result<(), String>) -> (r: Result<(), String>)
    ensures
        match r {
            Ok(()) => saved is Ok,
            Err(message) => saved is Err && message@ == "Failed to save config: "@
                + saved->Err_0@,
        },
{
    match saved {
        Ok(()) => Ok(()),
        Err(e) => Err(prefixed("Failed to save config: ", e.as_str())),
    }
}

/// Why the configuration could not be read from its file.
pub fn reload_error(error: &str) -> (r: String)
    ensures
        r@ == "Failed to reload config: "@ + error@,
{
    prefixed("Failed to reload config: ", error)
}

/// A command that something is wrong with changes nothing.
pub proof fn refused_commands_change_nothing(
    config: ConfigData,
    cmd: ConfigCommand,
    facts: RangeFacts,
    r: Applied,
)
    requires
        is_applied(config, cmd, facts, r),
        problems(cmd, facts).len() > 0,
    ensures
        r matches Applied::Edited { config: new, changed, .. } && new == config && !changed,
{
}

/// A command that is applied twice is the same as a command that is applied once.
pub proof fn editing_twice_is_editing_once(config: ConfigData, cmd: ConfigCommand)
    ensures
        config.edited(cmd).edited(cmd) == config.edited(cmd),
{
}

/// Each side gets the gap that a command names for that same side, and nothing else changes.
pub proof fn outer_gaps_go_to_their_own_sides(
    config: ConfigData,
    top: u64,
    left: u64,
    bottom: u64,
    right: u64,
    facts: RangeFacts,
    r: Applied,
)
    requires
        facts.in_range,
        is_applied(config, ConfigCommand::SetOuterGaps { top, left, bottom, right }, facts, r),
    ensures
        r matches Applied::Edited { config: new, changed, errors } && {
            &&& changed && errors@.len() == 0
            &&& new.outer_top == top
            &&& new.outer_left == left
            &&& new.outer_bottom == bottom
            &&& new.outer_right == right
            &&& new.inner_horizontal == config.inner_horizontal
            &&& new.inner_vertical == config.inner_vertical
            &&& new.animate == config.animate
            &&& new.animation_duration == config.animation_duration
            &&& new.animation_fps == config.animation_fps
            &&& new.animation_easing == config.animation_easing
            &&& new.mouse_follows_focus == config.mouse_follows_focus
            &&& new.mouse_hides_on_focus == config.mouse_hides_on_focus
            &&& new.focus_follows_mouse == config.focus_follows_mouse
            &&& new.stack_offset == config.stack_offset
            &&& new.workspace_names == config.workspace_names
        },
{
    assert(views(r->errors@).len() == 0);
}

/// The gaps between windows go to the axis that a command names, and nothing else changes.
pub proof fn inner_gaps_go_to_their_own_axes(
    config: ConfigData,
    horizontal: u64,
    vertical: u64,
    facts: RangeFacts,
    r: Applied,
)
    requires
        facts.in_range,
        is_applied(config, ConfigCommand::SetInnerGaps { horizontal, vertical }, facts, r),
    ensures
        r matches Applied::Edited { config: new, changed, errors } && {
            &&& changed && errors@.len() == 0
            &&& new.inner_horizontal == horizontal
            &&& new.inner_vertical == vertical
            &&& new.outer_top == config.outer_top && new.outer_left == config.outer_left
            &&& new.outer_bottom == config.outer_bottom && new.outer_right == config.outer_right
            &&& new.animate == config.animate
            &&& new.animation_duration == config.animation_duration
            &&& new.animation_fps == config.animation_fps
            &&& new.animation_easing == config.animation_easing
            &&& new.mouse_follows_focus == config.mouse_follows_focus
            &&& new.mouse_hides_on_focus == config.mouse_hides_on_focus
            &&& new.focus_follows_mouse == config.focus_follows_mouse
            &&& new.stack_offset == config.stack_offset
            &&& new.workspace_names == config.workspace_names
        },
{
    assert(views(r->errors@).len() == 0);
}

/// A switch that a command names is what the command says, and every other setting is as it was.
/// Switches are never refused.
pub proof fn switches_are_set_as_named(
    config: ConfigData,
    cmd: ConfigCommand,
    facts: RangeFacts,
    r: Applied,
    value: bool,
)
    requires
        cmd == ConfigCommand::SetAnimate(value) || cmd == ConfigCommand::SetMouseFollowsFocus(value)
            || cmd == ConfigCommand::SetMouseHidesOnFocus(value) || cmd
            == ConfigCommand::SetFocusFollowsMouse(value),
        is_applied(config, cmd, facts, r),
    ensures
        r matches Applied::Edited { config: new, changed, errors } && {
            &&& changed && errors@.len() == 0
            &&& new.animate == (if cmd is SetAnimate { value } else { config.animate })
            &&& new.mouse_follows_focus == (if cmd is SetMouseFollowsFocus {
                value
            } else {
                config.mouse_follows_focus
            })
            &&& new.mouse_hides_on_focus == (if cmd is SetMouseHidesOnFocus {
                value
            } else {
                config.mouse_hides_on_focus
            })
            &&& new.focus_follows_mouse == (if cmd is SetFocusFollowsMouse {
                value
            } else {
                config.focus_follows_mouse
            })
            &&& new.animation_duration == config.animation_duration
            &&& new.animation_fps == config.animation_fps
            &&& new.animation_easing == config.animation_easing
            &&& new.stack_offset == config.stack_offset
            &&& new.outer_top == config.outer_top && new.outer_left == config.outer_left
            &&& new.outer_bottom == config.outer_bottom && new.outer_right == config.outer_right
            &&& new.inner_horizontal == config.inner_horizontal
            &&& new.inner_vertical == config.inner_vertical
            &&& new.workspace_names == config.workspace_names
        },
{
    assert(views(r->errors@).len() == 0);
}

/// A number that a command names is what the command says, if it is in range, and every other
/// setting is as it was.
pub proof fn numbers_are_set_as_named(
    config: ConfigData,
    cmd: ConfigCommand,
    facts: RangeFacts,
    r: Applied,
    value: u64,
)
    requires
        facts.in_range,
        cmd == ConfigCommand::SetAnimationDuration(value) || cmd == ConfigCommand::SetAnimationFps(
            value,
        ) || cmd == ConfigCommand::SetStackOffset(value),
        is_applied(config, cmd, facts, r),
    ensures
        r matches Applied::Edited { config: new, changed, errors } && {
            &&& changed && errors@.len() == 0
            &&& new.animation_duration == (if cmd is SetAnimationDuration {
                value
            } else {
                config.animation_duration
            })
            &&& new.animation_fps == (if cmd is SetAnimationFps {
                value
            } else {
                config.animation_fps
            })
            &&& new.stack_offset == (if cmd is SetStackOffset { value } else { config.stack_offset })
            &&& new.animate == config.animate
            &&& new.animation_easing == config.animation_easing
            &&& new.mouse_follows_focus == config.mouse_follows_focus
            &&& new.mouse_hides_on_focus == config.mouse_hides_on_focus
            &&& new.focus_follows_mouse == config.focus_follows_mouse
            &&& new.outer_top == config.outer_top && new.outer_left == config.outer_left
            &&& new.outer_bottom == config.outer_bottom && new.outer_right == config.outer_right
            &&& new.inner_horizontal == config.inner_horizontal
            &&& new.inner_vertical == config.inner_vertical
            &&& new.workspace_names == config.workspace_names
        },
{
    assert(views(r->errors@).len() == 0);
}

/// The easing and the names of workspaces are what a command says, and every other setting is as
/// it was. Thirty-two names are taken, one more is not.
pub proof fn texts_are_set_as_named(
    config: ConfigData,
    easing: String,
    names: Vec<String>,
    facts: RangeFacts,
    eased: Applied,
    named: Applied,
)
    requires
        is_applied(config, ConfigCommand::SetAnimationEasing(easing), facts, eased),
        is_applied(config, ConfigCommand::SetWorkspaceNames(names), facts, named),
    ensures
        eased matches Applied::Edited { config: new, changed, errors } && changed && errors@.len()
            == 0 && new.animation_easing == easing && new.workspace_names == config.workspace_names
            && new == (ConfigData { animation_easing: new.animation_easing, ..config }),
        named matches Applied::Edited { config: new, changed, errors } && changed == (names@.len()
            <= 32) && (errors@.len() == 0) == changed && new.workspace_names == (if changed {
            names
        } else {
            config.workspace_names
        }) && new == (ConfigData { workspace_names: new.workspace_names, ..config }),
{
    assert(views(eased->errors@).len() == 0);
    assert(views(named->errors@).len() == named->errors@.len());
}

/// A number that is out of range is refused with a single message that says which number it was,
/// how it was written and what its range is; gaps are refused by kind.
pub proof fn numbers_out_of_range_are_refused(
    config: ConfigData,
    cmd: ConfigCommand,
    facts: RangeFacts,
    r: Applied,
)
    requires
        !facts.in_range,
        cmd is SetAnimationDuration || cmd is SetAnimationFps || cmd is SetStackOffset
            || cmd is SetOuterGaps || cmd is SetInnerGaps,
        is_applied(config, cmd, facts, r),
    ensures
        r matches Applied::Edited { config: new, changed, errors } && {
            &&& !changed && new == config && errors@.len() == 1
            &&& cmd is SetAnimationDuration ==> errors@[0]@
                == "Invalid animation_duration value: "@ + facts.text@
                + ". Must be between 0 and 5"@
            &&& cmd is SetAnimationFps ==> errors@[0]@ == "Invalid animation_fps value: "@
                + facts.text@ + ". Must be between 0 and 240"@
            &&& cmd is SetStackOffset ==> errors@[0]@ == "Invalid stack_offset value: "@
                + facts.text@ + ". Must be between 0 and 200"@
            &&& cmd is SetOuterGaps ==> errors@[0]@
                == "Invalid outer gap values. All values must be >= 0.0"@
            &&& cmd is SetInnerGaps ==> errors@[0]@
                == "Invalid inner gap values. All values must be >= 0.0"@
        },
{
    let errors = r->errors;
    assert(views(errors@).len() == errors@.len());
    assert(views(errors@)[0] == errors@[0]@);
    reveal_strlit("Invalid ");
    reveal_strlit("animation_duration");
    reveal_strlit("animation_fps");
    reveal_strlit("stack_offset");
    reveal_strlit(" value: ");
    reveal_strlit(". Must be between ");
    reveal_strlit("0");
    reveal_strlit(" and ");
    reveal_strlit("5");
    reveal_strlit("240");
    reveal_strlit("200");
    reveal_strlit("Invalid animation_duration value: ");
    reveal_strlit("Invalid animation_fps value: ");
    reveal_strlit("Invalid stack_offset value: ");
    reveal_strlit(". Must be between 0 and 5");
    reveal_strlit(". Must be between 0 and 240");
    reveal_strlit(". Must be between 0 and 200");
    if cmd is SetAnimationDuration {
        assert("Invalid "@ + "animation_duration"@ + " value: "@
            =~= "Invalid animation_duration value: "@);
        assert(". Must be between "@ + "0"@ + " and "@ + "5"@ =~= ". Must be between 0 and 5"@);
        assert(errors@[0]@ =~= "Invalid animation_duration value: "@ + facts.text@
            + ". Must be between 0 and 5"@);
    }
    if cmd is SetAnimationFps {
        assert("Invalid "@ + "animation_fps"@ + " value: "@ =~= "Invalid animation_fps value: "@);
        assert(". Must be between "@ + "0"@ + " and "@ + "240"@ =~= ". Must be between 0 and 240"@);
        assert(errors@[0]@ =~= "Invalid animation_fps value: "@ + facts.text@
            + ". Must be between 0 and 240"@);
    }
    if cmd is SetStackOffset {
        assert("Invalid "@ + "stack_offset"@ + " value: "@ =~= "Invalid stack_offset value: "@);
        assert(". Must be between "@ + "0"@ + " and "@ + "200"@ =~= ". Must be between 0 and 200"@);
        assert(errors@[0]@ =~= "Invalid stack_offset value: "@ + facts.text@
            + ". Must be between 0 and 200"@);
    }
}

/// Any other command is passed on with what it names, and edits nothing itself.
pub proof fn other_commands_edit_nothing(
    config: ConfigData,
    key: String,
    value: Value,
    facts: RangeFacts,
    set: Applied,
    reload: Applied,
)
    requires
        is_applied(config, ConfigCommand::SetKey { key, value }, facts, set),
        is_applied(config, ConfigCommand::ReloadConfig, facts, reload),
    ensures
        set matches Applied::SetValue { config: c, key: k, value: v } && c == config && k == key
            && v == value,
        reload matches Applied::Reload { config: c } && c == config,
{
}

/// Messages are joined in order, each once, with a semicolon between two.
pub proof fn joined_messages_keep_their_order(first: Seq<Seq<char>>, last: Seq<char>)
    ensures
        joined(seq![last]) == last,
        first.len() > 0 ==> joined(first.push(last)) == joined(first) + "; "@ + last,
{
    assert(first.push(last).drop_last() =~= first);
}

/// A command's own errors are reported first, then what is wrong with the configuration, and last
/// what bringing values into range did not mend.
pub proof fn the_first_thing_wrong_is_reported(e: Examined, message: Seq<char>)
    ensures
        e.refusal() is None <==> e.errors@.len() == 0 && e.issues@.len() == 0 && !(e.changed
            && e.fixes > 0 && e.remaining@.len() > 0),
        e.errors@.len() == 1 && e.errors@[0]@ == message ==> e.refusal() == Some(message),
        e.errors@.len() == 0 && e.issues@.len() == 1 && e.issues@[0]@ == message ==> e.refusal()
            == Some(message),
        e.errors@.len() == 0 && e.issues@.len() == 0 && e.changed && e.fixes > 0
            && e.remaining@.len() == 1 && e.remaining@[0]@ == message ==> e.refusal() == Some(
            message,
        ),
{
    if e.errors@.len() == 1 {
        assert(views(e.errors@)[0] == e.errors@[0]@);
    }
    if e.issues@.len() == 1 {
        assert(views(e.issues@)[0] == e.issues@[0]@);
    }
    if e.remaining@.len() == 1 {
        assert(views(e.remaining@)[0] == e.remaining@[0]@);
    }
}

} // verus!
