//! Watching the configuration file. It can be a link, and editors replace files rather than write
//! to them, so several signs tell that a change concerns it.

use vstd::prelude::*;
use vstd::string::*;

#[allow(unused_imports)]
use crate::text::text_view;
use crate::text::{is_text, same_optional, same_text};

verus! {

/// The time in milliseconds for which changes are collected.
pub const DEBOUNCE_MS: u64 = 250;

/// The device and the number of a file.
#[derive(Clone, Copy, Debug, PartialEq, Eq, Structural)]
pub struct FileId {
    pub device: u64,
    pub inode: u64,
}

pub struct ConfigWatcher {
    pub file: String,
    pub file_name: Option<String>,
    /// The file with all links followed.
    pub real_file: Option<String>,
    pub real_file_id: Option<FileId>,
    pub enabled: bool,
}

/// A file that was changed.
pub struct ChangedFile {
    pub path: String,
    pub file_name: Option<String>,
    /// The path with all links followed, if it can be told.
    pub real_path: Option<String>,
    pub id: Option<FileId>,
}

impl ConfigWatcher {
    /// Whether a change concerns the configuration: the paths are the same, or they are once links
    /// are followed, or both are the same file, or at least they have the same name.
    pub open spec fn concerns(self, event: ChangedFile) -> bool {
        ||| event.path@ == self.file@
        ||| self.real_file is Some && {
            ||| event.path@ == self.real_file->0@
            ||| text_view(event.real_path) == Some(self.real_file->0@)
            ||| event.id is Some && event.id == self.real_file_id
        }
        ||| event.file_name is Some && text_view(event.file_name) == text_view(self.file_name)
    }

    pub fn is_relevant(&self, event: &ChangedFile) -> (r: bool)
        ensures
            r == self.concerns(*event),
    {
        if same_text(event.path.as_str(), self.file.as_str()) {
            return true;
        }
        match &self.real_file {
            Some(linked) => {
                if same_text(event.path.as_str(), linked.as_str()) {
                    return true;
                }
                if is_text(&event.real_path, linked.as_str()) {
                    return true;
                }
                if event.id.is_some() && event.id == self.real_file_id {
                    return true;
                }
            },
            None => {},
        }
        event.file_name.is_some() && same_optional(&event.file_name, &self.file_name)
    }

    /// Whether a change is to be followed by reading the configuration again.
    pub fn wants_reload(&self, event: &ChangedFile) -> (r: bool)
        ensures
            r == (self.enabled && self.concerns(*event)),
    {
        self.enabled && self.is_relevant(event)
    }

    /// The configuration was read again; `hot_reload` says whether it is still to be watched, if
    /// reading succeeded.
    pub fn reloaded(&mut self, hot_reload: Option<bool>)
        ensures
            *final(self) == (match hot_reload {
                Some(enabled) => ConfigWatcher { enabled, ..*old(self) },
                None => *old(self),
            }),
    {
        match hot_reload {
            Some(enabled) => {
                self.enabled = enabled;
            },
            None => {},
        }
    }
}

/// The directories that are watched: those of the file and of what it links to, each once.
pub open spec fn directories(own: Option<Seq<char>>, linked: Option<Seq<char>>) -> Seq<Seq<char>> {
    match (own, linked) {
        (Some(a), Some(b)) => if a == b {
            seq![a]
        } else {
            seq![a, b]
        },
        (Some(a), None) => seq![a],
        (None, Some(b)) => seq![b],
        (None, None) => Seq::empty(),
    }
}

pub fn watched_directories(own: Option<String>, linked: Option<String>) -> (r: Vec<String>)
    ensures
        crate::text::views(r@) == directories(text_view(own), text_view(linked)),
{
    let mut r: Vec<String> = Vec::new();
    let same: bool = same_optional(&own, &linked);
    match &own {
        Some(a) => {
            r.push(a.clone());
        },
        None => {},
    }
    match &linked {
        Some(b) => {
            if !same {
                r.push(b.clone());
            }
        },
        None => {},
    }
    assert(crate::text::views(r@) =~= directories(text_view(own), text_view(linked)));
    r
}

/// Once watching is switched off, no change is followed by reading the configuration.
pub proof fn a_disabled_watcher_is_quiet(w: ConfigWatcher, event: ChangedFile)
    requires
        !w.enabled,
    ensures
        !(w.enabled && w.concerns(event)),
{
}

/// A change of the file itself always counts.
pub proof fn the_file_itself_counts(w: ConfigWatcher, event: ChangedFile)
    requires
        event.path@ == w.file@,
    ensures
        w.concerns(event),
{
}

/// A change counts for what links lead to, for the same file under another name, and for a file of
/// the same name. Nothing else counts.
pub proof fn changes_count_for_a_reason(w: ConfigWatcher, event: ChangedFile)
    ensures
        w.real_file is Some && event.path@ == w.real_file->0@ ==> w.concerns(event),
        w.real_file is Some && event.real_path is Some && event.real_path->0@ == w.real_file->0@
            ==> w.concerns(event),
        w.real_file is Some && event.id is Some && event.id == w.real_file_id ==> w.concerns(event),
        event.file_name is Some && w.file_name is Some && event.file_name->0@ == w.file_name->0@
            ==> w.concerns(event),
        w.concerns(event) && event.path@ != w.file@ && (event.file_name is None || w.file_name
            is None || event.file_name->0@ != w.file_name->0@) ==> w.real_file is Some && (
        event.path@ == w.real_file->0@ || (event.real_path is Some && event.real_path->0@
            == w.real_file->0@) || (event.id is Some && event.id == w.real_file_id)),
{
}

/// What is watched is the directory of the file, first, and that of what it links to, each once.
pub proof fn both_directories_are_watched(own: Option<Seq<char>>, linked: Option<Seq<char>>)
    ensures
        forall|d: Seq<char>| #[trigger]
            directories(own, linked).contains(d) <==> own == Some(d) || linked == Some(d),
        directories(own, linked).no_duplicates(),
        own is Some ==> directories(own, linked)[0] == own->0,
{
    let ds = directories(own, linked);
    if own is Some {
        assert(ds[0] == own->0);
    }
    if linked is Some {
        if own is Some && own != linked {
            assert(ds[1] == linked->0);
        } else {
            assert(ds[0] == linked->0);
        }
    }
}

} // verus!
