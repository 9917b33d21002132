//! The icon in the menu bar. Updates are collected for a moment, and one that would show what is
//! shown already is dropped: a hash of what shows tells.

use std::hash::Hasher;

use rustc_hash::FxHasher;
use vstd::prelude::*;

use crate::model::SpaceId;
use crate::protocol::events::WorkspaceId;
use crate::protocol::queries::{WindowData, WorkspaceData};

verus! {

/// The hasher of `rustc_hash`, opaque here.
#[verifier::external_type_specification]
#[verifier::external_body]
pub struct ExFxHasher(rustc_hash::FxHasher);

/// What `FxHasher::finish` gives for a hasher.
pub uninterp spec fn fx_digest(h: FxHasher) -> u64;

/// The digest once a number is added to a hasher that holds a number below `m`. The digest is that
/// number, rotated to the left by as many bits as `low` is a power of two. A number is added with
/// wrapping, and the sum is multiplied by `k` with wrapping.
pub open spec fn fx_added(digest: int, i: int, m: int, low: int, k: int) -> int {
    let high = m / low;
    let hash = (digest % low) * high + digest / low;
    let next = (((hash + i) % m) * k) % m;
    (next * low) % m + next / high
}

/// The same, with pointers of so many bits.
pub open spec fn fx_added_for(pointer_bits: u32, digest: int, i: int) -> int {
    if pointer_bits == 64 {
        fx_added(digest, i, 0x1_0000_0000_0000_0000, 0x400_0000, 0xf135_7aea_2e62_a9c5)
    } else {
        fx_added(digest, i, 0x1_0000_0000, 0x8000, 0x93d7_65dd)
    }
}

/// The digest once a word is written: it is added whole, or its lower half and then its upper one
/// where pointers are narrower.
pub open spec fn fx_mix_u64(pointer_bits: u32, digest: u64, word: u64) -> u64 {
    (if pointer_bits == 64 {
        fx_added_for(pointer_bits, digest as int, word as int)
    } else {
        fx_added_for(
            pointer_bits,
            fx_added_for(pointer_bits, digest as int, word as int % 0x1_0000_0000),
            word as int / 0x1_0000_0000,
        )
    }) as u64
}

pub open spec fn fx_mix_u32(pointer_bits: u32, digest: u64, word: u32) -> u64 {
    fx_added_for(pointer_bits, digest as int, word as int) as u64
}

/// Calls `FxHasher::default`: a hasher that nothing was written to has the digest 0.
#[verifier::external_body]
fn fx_new() -> (r: FxHasher)
    ensures
        fx_digest(r) == 0,
{
    FxHasher::default()
}

/// Calls `FxHasher::write_u64`. The hasher holds one number, as wide as pointers are, and adds the
/// word to it; the digest is a rotation of that number.
#[verifier::external_body]
fn fx_write_u64(h: &mut FxHasher, word: u64)
    ensures
        fx_digest(*final(h)) == fx_mix_u64(usize::BITS, fx_digest(*old(h)), word),
{
    h.write_u64(word)
}

/// Calls `FxHasher::write_u32`, which adds the word to the number that the hasher holds.
#[verifier::external_body]
fn fx_write_u32(h: &mut FxHasher, word: u32)
    ensures
        fx_digest(*final(h)) == fx_mix_u32(usize::BITS, fx_digest(*old(h)), word),
{
    h.write_u32(word)
}

/// Calls `FxHasher::finish`.
#[verifier::external_body]
fn fx_finish(h: &FxHasher) -> (r: u64)
    ensures
        r == fx_digest(*h),
{
    h.finish()
}

/// What shows in the menu bar.
#[derive(Clone, Debug, PartialEq, Eq)]
pub enum Event {
    Update {
        active_space: SpaceId,
        workspaces: Vec<WorkspaceData>,
        active_workspace: Option<WorkspaceId>,
        windows: Vec<WindowData>,
    },
}

pub open spec fn mixed_u64(digest: u64, word: u64) -> u64 {
    fx_mix_u64(usize::BITS, digest, word)
}

pub open spec fn mixed_u32(digest: u64, word: u32) -> u64 {
    fx_mix_u32(usize::BITS, digest, word)
}

/// The bits of a process id.
pub open spec fn pid_bits(pid: i32) -> u32 {
    #[verifier::truncate]
    (pid as u32)
}

/// The digest with a window written to the hasher: its id, then its frame.
pub open spec fn with_window(digest: u64, w: WindowData) -> u64 {
    let id = mixed_u32(mixed_u32(digest, pid_bits(w.id.pid)), w.id.idx);
    mixed_u64(
        mixed_u64(mixed_u64(mixed_u64(id, w.frame.x), w.frame.y), w.frame.width),
        w.frame.height,
    )
}

pub open spec fn with_windows(digest: u64, windows: Seq<WindowData>) -> u64
    decreases windows.len(),
{
    if windows.len() == 0 {
        digest
    } else {
        with_window(with_windows(digest, windows.drop_last()), windows.last())
    }
}

/// The hash of what shows: the space, the workspace if one is active, and the windows in order.
pub open spec fn signature_of(
    space: SpaceId,
    workspace: Option<WorkspaceId>,
    windows: Seq<WindowData>,
) -> u64 {
    let start = mixed_u64(0, space);
    with_windows(
        match workspace {
            Some(ws) => mixed_u64(start, ws.key() as u64),
            None => start,
        },
        windows,
    )
}

impl Event {
    pub open spec fn signature_spec(self) -> u64 {
        match self {
            Event::Update { active_space, active_workspace, windows, .. } => signature_of(
                active_space,
                active_workspace,
                windows@,
            ),
        }
    }

    /// The hash of what shows.
    pub fn signature(&self) -> (r: u64)
        ensures
            r == self.signature_spec(),
    {
        match self {
            Event::Update { active_space, workspaces: _, active_workspace, windows } => {
                let mut hasher = fx_new();
                fx_write_u64(&mut hasher, *active_space);
                match active_workspace {
                    Some(ws) => {
                        let version: u64 = ws.version as u64;
                        let idx: u64 = ws.idx as u64;
                        fx_write_u64(&mut hasher, version * 0x1_0000_0000 + idx);
                    },
                    None => {},
                }
                let ghost start = fx_digest(hasher);
                let mut i: usize = 0;
                while i < windows.len()
                    invariant
                        i <= windows@.len(),
                        fx_digest(hasher) == with_windows(start, windows@.take(i as int)),
                    decreases windows@.len() - i,
                {
                    assert(windows@.take(i + 1).drop_last() =~= windows@.take(i as int));
                    let w = &windows[i];
                    let pid: u32 = #[verifier::truncate]
                    (w.id.pid as u32);
                    fx_write_u32(&mut hasher, pid);
                    fx_write_u32(&mut hasher, w.id.idx);
                    fx_write_u64(&mut hasher, w.frame.x);
                    fx_write_u64(&mut hasher, w.frame.y);
                    fx_write_u64(&mut hasher, w.frame.width);
                    fx_write_u64(&mut hasher, w.frame.height);
                    i = i + 1;
                }
                assert(windows@.take(i as int) =~= windows@);
                fx_finish(&hasher)
            },
        }
    }
}

/// The time in milliseconds for which updates are collected.
pub const DEBOUNCE_MS: u64 = 150;

pub struct Menu {
    pub icon: bool,
    pub show_empty: bool,
    pub last_signature: Option<u64>,
    /// The newest update that does not show yet.
    pub pending: Option<Event>,
    /// Whether the timer runs.
    pub armed: bool,
    /// Whether the timer ran out since an update was last shown.
    pub due: bool,
}

impl Menu {
    pub fn new(enabled: bool, show_empty: bool) -> (r: Menu)
        ensures
            r == (Menu {
                icon: enabled,
                show_empty,
                last_signature: None,
                pending: None,
                armed: false,
                due: false,
            }),
    {
        Menu {
            icon: enabled,
            show_empty,
            last_signature: None,
            pending: None,
            armed: false,
            due: false,
        }
    }

    /// An update came in: it takes the place of the one before. The result says whether the timer
    /// is to be started.
    pub fn receive(&mut self, event: Event) -> (r: bool)
        ensures
            r == !old(self).armed,
            *final(self) == (Menu { pending: Some(event), armed: true, ..*old(self) }),
    {
        self.pending = Some(event);
        let start: bool = !self.armed;
        self.armed = true;
        start
    }

    /// The timer ran out.
    pub fn timer_fired(&mut self)
        ensures
            *final(self) == (Menu { armed: false, due: true, ..*old(self) }),
    {
        self.armed = false;
        self.due = true;
    }

    /// The update that is to be shown now. Once no more updates come, it need not wait.
    pub fn take_due(&mut self, closed: bool) -> (r: Option<Event>)
        ensures
            r == (if old(self).due || closed {
                old(self).pending
            } else {
                None
            }),
            final(self).pending == (if old(self).due || closed {
                None
            } else {
                old(self).pending
            }),
            final(self).due == (old(self).due && old(self).pending is None),
            *final(self) == (Menu {
                pending: final(self).pending,
                due: final(self).due,
                ..*old(self)
            }),
    {
        if !self.due && !closed {
            return None;
        }
        let event = self.pending.take();
        if event.is_some() {
            self.due = false;
        }
        event
    }

    /// Whether the icon is to be drawn anew for an update: with all workspaces, or only with those
    /// that have windows.
    pub fn handle_event(&mut self, event: &Event) -> (r: Option<bool>)
        ensures
            r == (if old(self).icon && old(self).last_signature != Some(event.signature_spec()) {
                Some(old(self).show_empty)
            } else {
                None
            }),
            *final(self) == (if old(self).icon {
                Menu { last_signature: Some(event.signature_spec()), ..*old(self) }
            } else {
                *old(self)
            }),
    {
        if !self.icon {
            return None;
        }
        let sig: u64 = event.signature();
        if self.last_signature == Some(sig) {
            return None;
        }
        self.last_signature = Some(sig);
        Some(self.show_empty)
    }
}

/// What does not change what shows does not change the signature: the workspaces but for the
/// active one, and of a window everything but its id and its frame.
pub proof fn titles_do_not_count(
    space: SpaceId,
    workspace: Option<WorkspaceId>,
    a: Seq<WindowData>,
    b: Seq<WindowData>,
)
    requires
        a.len() == b.len(),
        forall|i: int|
            0 <= i < a.len() ==> (#[trigger] a[i]).id == b[i].id && a[i].frame == b[i].frame,
    ensures
        signature_of(space, workspace, a) == signature_of(space, workspace, b),
{
    let start = match workspace {
        Some(ws) => mixed_u64(mixed_u64(0, space), ws.key() as u64),
        None => mixed_u64(0, space),
    };
    lemma_same_windows(start, a, b);
}

proof fn lemma_same_windows(digest: u64, a: Seq<WindowData>, b: Seq<WindowData>)
    requires
        a.len() == b.len(),
        forall|i: int|
            0 <= i < a.len() ==> (#[trigger] a[i]).id == b[i].id && a[i].frame == b[i].frame,
    ensures
        with_windows(digest, a) == with_windows(digest, b),
    decreases a.len(),
{
    if a.len() > 0 {
        assert forall|i: int| 0 <= i < a.drop_last().len() implies (#[trigger] a.drop_last()[i]).id
            == b.drop_last()[i].id && a.drop_last()[i].frame == b.drop_last()[i].frame by {
            assert(a.drop_last()[i] == a[i]);
        }
        lemma_same_windows(digest, a.drop_last(), b.drop_last());
        assert(a[a.len() - 1].id == b[a.len() - 1].id);
    }
}

/// Nothing is lost when a number is rotated.
proof fn lemma_rotation_keeps_apart(a: int, b: int)
    requires
        0 <= a < 0x1_0000_0000_0000_0000,
        0 <= b < 0x1_0000_0000_0000_0000,
        (a * 0x400_0000) % 0x1_0000_0000_0000_0000 + a / 0x40_0000_0000 == (b * 0x400_0000)
            % 0x1_0000_0000_0000_0000 + b / 0x40_0000_0000,
    ensures
        a == b,
{
    let (qa, ra) = (a / 0x40_0000_0000, a % 0x40_0000_0000);
    let (qb, rb) = (b / 0x40_0000_0000, b % 0x40_0000_0000);
    assert(a * 0x400_0000 == qa * 0x1_0000_0000_0000_0000 + ra * 0x400_0000);
    assert(b * 0x400_0000 == qb * 0x1_0000_0000_0000_0000 + rb * 0x400_0000);
    assert((a * 0x400_0000) % 0x1_0000_0000_0000_0000 == ra * 0x400_0000);
    assert((b * 0x400_0000) % 0x1_0000_0000_0000_0000 == rb * 0x400_0000);
    assert(0 <= qa < 0x400_0000 && 0 <= qb < 0x400_0000);
    assert(ra == rb && qa == qb);
}

/// Nothing is lost when a number is multiplied by the odd factor with wrapping.
proof fn lemma_the_factor_keeps_apart(a: int, b: int)
    requires
        0 <= a < 0x1_0000_0000_0000_0000,
        0 <= b < 0x1_0000_0000_0000_0000,
        (a * 0xf135_7aea_2e62_a9c5) % 0x1_0000_0000_0000_0000 == (b * 0xf135_7aea_2e62_a9c5)
            % 0x1_0000_0000_0000_0000,
    ensures
        a == b,
{
    let d = a - b;
    let t = (a * 0xf135_7aea_2e62_a9c5) / 0x1_0000_0000_0000_0000 - (b * 0xf135_7aea_2e62_a9c5)
        / 0x1_0000_0000_0000_0000;
    assert(d * 0xf135_7aea_2e62_a9c5 == t * 0x1_0000_0000_0000_0000);
    let u = t * 0x7814_94a5_5daa_ed0d - d * 0x7124_75da_1ad2_f590;
    assert(d == u * 0x1_0000_0000_0000_0000);
    assert(u == 0);
}

/// What is in the hasher when it has this digest.
spec fn unrotated(d: int) -> int {
    (d % 0x400_0000) * 0x40_0000_0000 + d / 0x400_0000
}

/// What is in the hasher once a number is added to what is in it.
spec fn multiplied(h: int, i: int) -> int {
    (((h + i) % 0x1_0000_0000_0000_0000) * 0xf135_7aea_2e62_a9c5) % 0x1_0000_0000_0000_0000
}

proof fn lemma_unrotated_keeps_apart(d: int, e: int)
    requires
        0 <= d < 0x1_0000_0000_0000_0000,
        0 <= e < 0x1_0000_0000_0000_0000,
    ensures
        0 <= unrotated(d) < 0x1_0000_0000_0000_0000,
        unrotated(d) == unrotated(e) ==> d == e,
{
    let (q, r) = (d / 0x400_0000, d % 0x400_0000);
    let (p, s) = (e / 0x400_0000, e % 0x400_0000);
    assert(0 <= q < 0x40_0000_0000 && 0 <= p < 0x40_0000_0000);
    assert(0 <= r < 0x400_0000 && 0 <= s < 0x400_0000);
    assert(d == q * 0x400_0000 + r && e == p * 0x400_0000 + s);
}

proof fn lemma_sums_keep_apart(h: int, g: int, i: int, j: int)
    requires
        0 <= h < 0x1_0000_0000_0000_0000,
        0 <= g < 0x1_0000_0000_0000_0000,
        0 <= i < 0x1_0000_0000_0000_0000,
        0 <= j < 0x1_0000_0000_0000_0000,
        (h + i) % 0x1_0000_0000_0000_0000 == (g + j) % 0x1_0000_0000_0000_0000,
    ensures
        h == g ==> i == j,
        i == j ==> h == g,
{
}

proof fn lemma_added_is_rotated(d: int, i: int)
    ensures
        fx_added_for(64, d, i) == (multiplied(unrotated(d), i) * 0x400_0000)
            % 0x1_0000_0000_0000_0000 + multiplied(unrotated(d), i) / 0x40_0000_0000,
        0 <= multiplied(unrotated(d), i) < 0x1_0000_0000_0000_0000,
{
    assert(0x1_0000_0000_0000_0000int / 0x400_0000 == 0x40_0000_0000);
}

proof fn lemma_rotated_fits(p: int)
    requires
        0 <= p < 0x1_0000_0000_0000_0000,
    ensures
        0 <= (p * 0x400_0000) % 0x1_0000_0000_0000_0000 + p / 0x40_0000_0000
            < 0x1_0000_0000_0000_0000,
{
    let (q, r) = (p / 0x40_0000_0000, p % 0x40_0000_0000);
    assert(0 <= q < 0x400_0000 && 0 <= r < 0x40_0000_0000);
    assert(p * 0x400_0000 == q * 0x1_0000_0000_0000_0000 + r * 0x400_0000);
    assert((p * 0x400_0000) % 0x1_0000_0000_0000_0000 == r * 0x400_0000);
}

/// Where pointers have 64 bits, a digest tells both what was in the hasher and the number that is
/// added, one at a time.
proof fn lemma_adding_keeps_apart(d: int, e: int, i: int, j: int)
    requires
        0 <= d < 0x1_0000_0000_0000_0000,
        0 <= e < 0x1_0000_0000_0000_0000,
        0 <= i < 0x1_0000_0000_0000_0000,
        0 <= j < 0x1_0000_0000_0000_0000,
        fx_added_for(64, d, i) == fx_added_for(64, e, j),
    ensures
        0 <= fx_added_for(64, d, i) < 0x1_0000_0000_0000_0000,
        d == e ==> i == j,
        i == j ==> d == e,
{
    let (h, g) = (unrotated(d), unrotated(e));
    lemma_added_is_rotated(d, i);
    lemma_added_is_rotated(e, j);
    lemma_rotated_fits(multiplied(h, i));
    lemma_rotation_keeps_apart(multiplied(h, i), multiplied(g, j));
    let (x, y) = ((h + i) % 0x1_0000_0000_0000_0000, (g + j) % 0x1_0000_0000_0000_0000);
    lemma_the_factor_keeps_apart(x, y);
    lemma_unrotated_keeps_apart(d, e);
    lemma_unrotated_keeps_apart(e, d);
    lemma_sums_keep_apart(h, g, i, j);
}

proof fn lemma_added_fits(d: int, i: int)
    requires
        0 <= d < 0x1_0000_0000_0000_0000,
        0 <= i < 0x1_0000_0000_0000_0000,
    ensures
        0 <= fx_added_for(64, d, i) < 0x1_0000_0000_0000_0000,
{
    lemma_adding_keeps_apart(d, d, i, i);
}

proof fn lemma_words_keep_apart(d: u64, e: u64, i: u64, j: u64)
    requires
        usize::BITS == 64,
        mixed_u64(d, i) == mixed_u64(e, j),
    ensures
        d == e ==> i == j,
        i == j ==> d == e,
{
    lemma_added_fits(d as int, i as int);
    lemma_added_fits(e as int, j as int);
    lemma_adding_keeps_apart(d as int, e as int, i as int, j as int);
}

proof fn lemma_halves_keep_apart(d: u64, e: u64, i: u32, j: u32)
    requires
        usize::BITS == 64,
        mixed_u32(d, i) == mixed_u32(e, j),
    ensures
        d == e ==> i == j,
        i == j ==> d == e,
{
    lemma_added_fits(d as int, i as int);
    lemma_added_fits(e as int, j as int);
    lemma_adding_keeps_apart(d as int, e as int, i as int, j as int);
}

/// Whether two windows differ in one number of those that place and name them, and only in one.
pub open spec fn differ_in_one_number(a: WindowData, b: WindowData) -> bool {
    let pid = a.id.pid != b.id.pid;
    let idx = a.id.idx != b.id.idx;
    let x = a.frame.x != b.frame.x;
    let y = a.frame.y != b.frame.y;
    let width = a.frame.width != b.frame.width;
    let height = a.frame.height != b.frame.height;
    ||| pid && !idx && !x && !y && !width && !height
    ||| !pid && idx && !x && !y && !width && !height
    ||| !pid && !idx && x && !y && !width && !height
    ||| !pid && !idx && !x && y && !width && !height
    ||| !pid && !idx && !x && !y && width && !height
    ||| !pid && !idx && !x && !y && !width && height
}

proof fn lemma_a_window_keeps_apart(d: u64, e: u64, a: WindowData, b: WindowData)
    requires
        usize::BITS == 64,
        with_window(d, a) == with_window(e, b),
    ensures
        a == b ==> d == e,
        d == e ==> !differ_in_one_number(a, b),
{
    let (p, q) = (a.id.pid, b.id.pid);
    assert((p as u32 == q as u32) ==> p == q) by (bit_vector);
    let (d1, e1) = (mixed_u32(d, pid_bits(a.id.pid)), mixed_u32(e, pid_bits(b.id.pid)));
    let (d2, e2) = (mixed_u32(d1, a.id.idx), mixed_u32(e1, b.id.idx));
    let (d3, e3) = (mixed_u64(d2, a.frame.x), mixed_u64(e2, b.frame.x));
    let (d4, e4) = (mixed_u64(d3, a.frame.y), mixed_u64(e3, b.frame.y));
    let (d5, e5) = (mixed_u64(d4, a.frame.width), mixed_u64(e4, b.frame.width));
    lemma_words_keep_apart(d5, e5, a.frame.height, b.frame.height);
    if d5 == e5 {
        lemma_words_keep_apart(d4, e4, a.frame.width, b.frame.width);
        if d4 == e4 {
            lemma_words_keep_apart(d3, e3, a.frame.y, b.frame.y);
            if d3 == e3 {
                lemma_words_keep_apart(d2, e2, a.frame.x, b.frame.x);
                if d2 == e2 {
                    lemma_halves_keep_apart(d1, e1, a.id.idx, b.id.idx);
                    if d1 == e1 {
                        lemma_halves_keep_apart(d, e, pid_bits(a.id.pid), pid_bits(b.id.pid));
                    }
                }
            }
        }
    }
}

proof fn lemma_windows_keep_apart(d: u64, e: u64, a: Seq<WindowData>, b: Seq<WindowData>, i: int)
    requires
        usize::BITS == 64,
        a.len() == b.len(),
        forall|k: int| 0 <= k < a.len() && k != i ==> (#[trigger] a[k]) == b[k],
        0 <= i < a.len() ==> d == e && differ_in_one_number(a[i], b[i]),
        i == -1 ==> d != e,
        -1 <= i < a.len(),
    ensures
        with_windows(d, a) != with_windows(e, b),
    decreases a.len(),
{
    if a.len() > 0 {
        let n = a.len() - 1;
        let (ha, hb) = (a.drop_last(), b.drop_last());
        assert(forall|k: int| 0 <= k < n ==> ha[k] == a[k] && hb[k] == b[k]);
        assert(a[n] == a.last() && b[n] == b.last());
        if with_windows(d, a) == with_windows(e, b) {
            let (x, y) = (with_windows(d, ha), with_windows(e, hb));
            lemma_a_window_keeps_apart(x, y, a.last(), b.last());
            if i == n {
                assert(ha =~= hb);
            } else {
                lemma_windows_keep_apart(d, e, ha, hb, i);
            }
        }
    }
}

/// What moves, grows or takes the place of something else shows: where pointers have 64 bits, an
/// update that differs from another in the space, in the workspace, or in one number of one window
/// has another signature.
pub proof fn what_shows_changes_the_signature(
    space: SpaceId,
    workspaces: Vec<WorkspaceData>,
    workspace: Option<WorkspaceId>,
    windows: Vec<WindowData>,
    other_space: SpaceId,
    other_workspace: WorkspaceId,
    other_windows: Vec<WindowData>,
    i: int,
)
    requires
        usize::BITS == 64,
    ensures
        other_space != space ==> (Event::Update {
            active_space: space,
            workspaces,
            active_workspace: workspace,
            windows,
        }).signature_spec() != (Event::Update {
            active_space: other_space,
            workspaces,
            active_workspace: workspace,
            windows,
        }).signature_spec(),
        workspace is Some && workspace->0 != other_workspace ==> (Event::Update {
            active_space: space,
            workspaces,
            active_workspace: workspace,
            windows,
        }).signature_spec() != (Event::Update {
            active_space: space,
            workspaces,
            active_workspace: Some(other_workspace),
            windows,
        }).signature_spec(),
        windows@.len() == other_windows@.len() && 0 <= i < windows@.len() && differ_in_one_number(
            windows@[i],
            other_windows@[i],
        ) && (forall|k: int|
            0 <= k < windows@.len() && k != i ==> (#[trigger] windows@[k]) == other_windows@[k])
            ==> (Event::Update {
            active_space: space,
            workspaces,
            active_workspace: workspace,
            windows,
        }).signature_spec() != (Event::Update {
            active_space: space,
            workspaces,
            active_workspace: workspace,
            windows: other_windows,
        }).signature_spec(),
{
    let start = mixed_u64(0, space);
    let other_start = mixed_u64(0, other_space);
    let ws = windows@;
    let digest = match workspace {
        Some(w) => mixed_u64(start, w.key() as u64),
        None => start,
    };
    if other_space != space {
        if start == other_start {
            lemma_words_keep_apart(0, 0, space, other_space);
        }
        if workspace is Some {
            let key = workspace->0.key() as u64;
            let (d, e) = (mixed_u64(start, key), mixed_u64(other_start, key));
            if d == e {
                lemma_words_keep_apart(start, other_start, key, key);
            }
            lemma_windows_keep_apart(d, e, ws, ws, -1);
        } else {
            lemma_windows_keep_apart(start, other_start, ws, ws, -1);
        }
    }
    if workspace is Some && workspace->0 != other_workspace {
        crate::protocol::events::keys_hold_index_and_version(workspace->0);
        crate::protocol::events::keys_hold_index_and_version(other_workspace);
        let (key, other_key) = (workspace->0.key() as u64, other_workspace.key() as u64);
        let (d, e) = (mixed_u64(start, key), mixed_u64(start, other_key));
        if d == e {
            lemma_words_keep_apart(start, start, key, other_key);
        }
        lemma_windows_keep_apart(d, e, ws, ws, -1);
    }
    if windows@.len() == other_windows@.len() && 0 <= i < windows@.len() && differ_in_one_number(
        windows@[i],
        other_windows@[i],
    ) && (forall|k: int|
        0 <= k < windows@.len() && k != i ==> (#[trigger] windows@[k]) == other_windows@[k]) {
        lemma_windows_keep_apart(digest, digest, ws, other_windows@, i);
    }
}

/// One more window changes the digest by what it is, whatever stands before it; without a window
/// and a workspace there is only the space.
pub proof fn windows_are_taken_in_turn(
    space: SpaceId,
    workspace: WorkspaceId,
    windows: Seq<WindowData>,
    w: WindowData,
)
    ensures
        signature_of(space, None, Seq::empty()) == mixed_u64(0, space),
        signature_of(space, Some(workspace), Seq::empty()) == mixed_u64(
            mixed_u64(0, space),
            (workspace.version * 0x1_0000_0000 + workspace.idx) as u64,
        ),
        signature_of(space, Some(workspace), windows.push(w)) == mixed_u64(
            mixed_u64(
                mixed_u64(
                    mixed_u64(
                        mixed_u32(
                            mixed_u32(
                                signature_of(space, Some(workspace), windows),
                                pid_bits(w.id.pid),
                            ),
                            w.id.idx,
                        ),
                        w.frame.x,
                    ),
                    w.frame.y,
                ),
                w.frame.width,
            ),
            w.frame.height,
        ),
{
    assert(windows.push(w).drop_last() =~= windows);
}

} // verus!
