//! Window identifiers.

use vstd::prelude::*;
use vstd::string::*;

use crate::collections::Key;
use crate::text::{
    chars_of, find, parse_i32, parse_u32, push_signed, push_unsigned, slice_of, text_ends_with,
    text_starts_with,
};

verus! {

/// An identifier representing a window.
///
/// This identifier is only valid for the lifetime of the process that owns it.
/// It is not stable across restarts of the window manager. `idx` is never zero.
#[derive(Clone, Copy, Debug, PartialEq, Eq, Structural, PartialOrd, Ord, Hash)]
pub struct WindowId {
    pub pid: i32,
    pub idx: u32,
}

impl Key for WindowId {
    fn same(&self, other: &Self) -> (r: bool) {
        self.pid == other.pid && self.idx == other.idx
    }
}

/// The text in front of the pid.
pub open spec fn debug_prefix() -> Seq<char> {
    "WindowId { pid: "@
}

/// The text between the pid and the index.
pub open spec fn debug_separator() -> Seq<char> {
    ", idx: "@
}

/// The text behind the index.
pub open spec fn debug_suffix() -> Seq<char> {
    " }"@
}

impl WindowId {
    pub open spec fn wf(self) -> bool {
        self.idx != 0
    }

    /// The text that names this window.
    pub open spec fn debug_text(self) -> Seq<char> {
        debug_prefix() + crate::text::decimal(self.pid as int) + debug_separator()
            + crate::text::decimal(self.idx as int) + debug_suffix()
    }

    /// The window that `s` names: the pid stands between the prefix and the first separator, the
    /// index between that separator and the suffix.
    pub open spec fn named_by(s: Seq<char>, id: WindowId) -> bool {
        exists|k: int| #[trigger] Self::named_at(s, id, k)
    }

    pub open spec fn named_at(s: Seq<char>, id: WindowId, k: int) -> bool {
        let rest = s.skip(debug_prefix().len() as int);
        let tail = rest.skip(k + debug_separator().len());
        &&& crate::text::starts_with(s, debug_prefix())
        &&& crate::text::first_match(rest, debug_separator(), k)
        &&& crate::text::ends_with(tail, debug_suffix())
        &&& crate::text::parsed_signed(rest.take(k), i32::MIN as int, i32::MAX as int) == Some(
            id.pid as int,
        )
        &&& crate::text::parsed_unsigned(
            tail.take(tail.len() - debug_suffix().len()),
            u32::MAX as int,
        ) == Some(id.idx as int)
        &&& id.wf()
    }

    pub fn new(pid: i32, idx: u32) -> (id: WindowId)
        requires
            idx != 0,
        ensures
            id.pid == pid,
            id.idx == idx,
            id.wf(),
    {
        WindowId { pid, idx }
    }

    /// Parses a window id from its text (format: "WindowId { pid: 123, idx: 456 }").
    pub fn from_debug_string(s: &str) -> (r: Option<WindowId>)
        ensures
            match r {
                Some(id) => Self::named_by(s@, id),
                None => forall|id: WindowId| !Self::named_by(s@, id),
            },
    {
        let all = chars_of(s);
        let prefix = chars_of("WindowId { pid: ");
        let separator = chars_of(", idx: ");
        let suffix = chars_of(" }");
        if !text_starts_with(&all, &prefix) {
            return None;
        }
        let rest = slice_of(&all, prefix.len(), all.len());
        assert(rest@ =~= s@.skip(debug_prefix().len() as int));
        let k: usize = match find(&rest, &separator) {
            Some(k) => k,
            None => {
                return None;
            },
        };
        proof {
            assert forall|id: WindowId, j: int| Self::named_at(s@, id, j) implies j == k by {
                if j < k {
                    assert(!crate::text::matches_at(rest@, separator@, j));
                } else if k < j {
                    assert(!crate::text::matches_at(rest@, separator@, k as int));
                }
            }
        }
        let tail = slice_of(&rest, k + separator.len(), rest.len());
        assert(tail@ =~= rest@.skip(k + debug_separator().len()));
        if !text_ends_with(&tail, &suffix) {
            return None;
        }
        let pid_text = slice_of(&rest, 0, k);
        assert(pid_text@ =~= rest@.take(k as int));
        let idx_text = slice_of(&tail, 0, tail.len() - suffix.len());
        assert(idx_text@ =~= tail@.take(tail@.len() - debug_suffix().len()));
        let pid: i32 = match parse_i32(&pid_text) {
            Some(pid) => pid,
            None => {
                return None;
            },
        };
        let idx: u32 = match parse_u32(&idx_text) {
            Some(idx) => idx,
            None => {
                return None;
            },
        };
        if idx == 0 {
            return None;
        }
        let id = WindowId { pid, idx };
        assert(Self::named_at(s@, id, k as int));
        Some(id)
    }

    pub fn to_debug_string(&self) -> (r: String)
        ensures
            r@ == self.debug_text(),
    {
        let mut r: String = String::from_str("WindowId { pid: ");
        push_signed(&mut r, self.pid as i64);
        r.append(", idx: ");
        push_unsigned(&mut r, self.idx as u64);
        r.append(" }");
        r
    }
}

/// The text of a window id names that window and no other.
pub proof fn debug_text_round_trips(id: WindowId)
    requires
        id.wf(),
    ensures
        WindowId::named_by(id.debug_text(), id),
        forall|other: WindowId| WindowId::named_by(id.debug_text(), other) ==> other == id,
{
    reveal_strlit("WindowId { pid: ");
    reveal_strlit(", idx: ");
    reveal_strlit(" }");
    let s = id.debug_text();
    let pid_text = crate::text::decimal(id.pid as int);
    let idx_text = crate::text::decimal(id.idx as int);
    crate::text::decimal_round_trips(id.pid as int, i32::MIN as int, i32::MAX as int);
    crate::text::decimal_round_trips(id.idx as int, 0, u32::MAX as int);
    let k = pid_text.len() as int;
    let rest = s.skip(debug_prefix().len() as int);
    assert(s.subrange(0, debug_prefix().len() as int) =~= debug_prefix());
    assert(rest =~= pid_text + debug_separator() + idx_text + debug_suffix());
    assert(rest.subrange(k, k + debug_separator().len()) =~= debug_separator());
    assert forall|j: int| 0 <= j < k implies !crate::text::matches_at(rest, debug_separator(), j) by {
        assert(rest[j] == pid_text[j]);
        if crate::text::matches_at(rest, debug_separator(), j) {
            assert(rest.subrange(j, j + debug_separator().len())[0] == rest[j]);
        }
    }
    let tail = rest.skip(k + debug_separator().len());
    assert(tail =~= idx_text + debug_suffix());
    assert(tail.subrange(tail.len() - debug_suffix().len(), tail.len() as int) =~= debug_suffix());
    assert(rest.take(k) =~= pid_text);
    assert(tail.take(tail.len() - debug_suffix().len()) =~= idx_text);
    assert(WindowId::named_at(s, id, k));
    assert forall|other: WindowId| WindowId::named_by(s, other) implies other == id by {
        let j = choose|j: int| WindowId::named_at(s, other, j);
        if j < k {
            assert(!crate::text::matches_at(rest, debug_separator(), j));
        } else if k < j {
            assert(!crate::text::matches_at(rest, debug_separator(), k));
        }
    }
}

/// The text of a window id gives the process, then the index, in decimal.
pub proof fn the_text_gives_the_process_then_the_index(id: WindowId)
    ensures
        id.debug_text() == "WindowId { pid: "@ + crate::text::decimal(id.pid as int) + ", idx: "@
            + crate::text::decimal(id.idx as int) + " }"@,
        id.wf() <==> id.idx != 0,
{
}

} // verus!
