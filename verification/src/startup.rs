//! What the program does when it starts, by its options.

use vstd::prelude::*;

use crate::window_notify::CGSEventType;

verus! {

#[derive(Clone, Debug, PartialEq, Eq)]
pub struct Options {
    /// Only the current space is managed.
    pub one: bool,
    /// New spaces are not managed. Ignored where only the current space is.
    pub default_disable: bool,
    pub no_animate: bool,
    /// Only see whether the restore file can be loaded.
    pub validate: bool,
    /// Begin with what was saved on exit.
    pub restore: bool,
    /// The file that events are recorded to.
    pub record: Option<String>,
}

/// The settings that options have a say in.
#[derive(Clone, Copy, Debug, PartialEq, Eq, Structural)]
pub struct StartSettings {
    pub animate: bool,
    pub default_disable: bool,
}

/// What the program begins with.
#[derive(Clone, Copy, Debug, PartialEq, Eq, Structural)]
pub enum Beginning {
    /// Load the restore file and exit.
    Validate,
    /// Run with the layout of the restore file.
    Restore,
    /// Run with a new layout.
    Fresh,
}

impl Options {
    /// The settings with what the options say. That new spaces are disabled by default is ignored
    /// where only one space is managed.
    pub fn effective_settings(&self, configured: StartSettings) -> (r: StartSettings)
        ensures
            r.animate == (configured.animate && !self.no_animate),
            r.default_disable == (configured.default_disable || (self.default_disable
                && !self.one)),
    {
        StartSettings {
            animate: configured.animate && !self.no_animate,
            default_disable: configured.default_disable || (self.default_disable && !self.one),
        }
    }

    pub fn beginning(&self) -> (r: Beginning)
        ensures
            r == (if self.validate {
                Beginning::Validate
            } else if self.restore {
                Beginning::Restore
            } else {
                Beginning::Fresh
            }),
    {
        if self.validate {
            Beginning::Validate
        } else if self.restore {
            Beginning::Restore
        } else {
            Beginning::Fresh
        }
    }
}

/// The events of the window server that are subscribed to at the start.
pub fn initial_events() -> (r: Vec<CGSEventType>)
    ensures
        r@ == seq![CGSEventType::WindowDestroyed, CGSEventType::WindowCreated],
{
    let mut r: Vec<CGSEventType> = Vec::new();
    r.push(CGSEventType::WindowDestroyed);
    r.push(CGSEventType::WindowCreated);
    assert(r@ =~= seq![CGSEventType::WindowDestroyed, CGSEventType::WindowCreated]);
    r
}

} // verus!
