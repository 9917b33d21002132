//! A client that claims one window until it exits: which window its arguments name.

use vstd::prelude::*;
use vstd::string::*;

use crate::protocol::queries::{WindowData, WindowId};
use crate::text::{chars_of, parse_i32, parse_u32, same_text, slice_of};
#[allow(unused_imports)]
use crate::text::{
    decimal, decimal_round_trips, is_digit, parsed_numbers_are_in_range, parsed_signed,
    parsed_unsigned, views,
};

verus! {

/// The window that the arguments name.
#[derive(Clone, Copy, Debug, PartialEq, Eq, Structural)]
pub enum WindowChoice {
    /// By the process that owns it.
    Id(WindowId),
    /// By the number that the window server gave it.
    ServerId(u32),
}

#[derive(Clone, Copy, Debug, PartialEq, Eq, Structural)]
pub enum OwnerError {
    Usage,
    MissingId,
    ExtraArgument,
    /// The process is no number.
    BadPid,
    /// The index is no number.
    BadIndex,
    ZeroIndex,
    /// The number of the window server is no number.
    BadServerId,
    NotFound,
}

impl OwnerError {
    pub open spec fn text(self) -> Seq<char> {
        match self {
            OwnerError::Usage => "usage: owner --window-id <window-server-id|pid:idx>"@,
            OwnerError::MissingId => "missing window ID"@,
            OwnerError::ExtraArgument => "unexpected extra argument"@,
            OwnerError::BadPid => "invalid process ID"@,
            OwnerError::BadIndex => "invalid window idx"@,
            OwnerError::ZeroIndex => "window idx must be nonzero"@,
            OwnerError::BadServerId => "invalid WindowServer ID"@,
            OwnerError::NotFound => "WindowServer ID not found in the active workspace; use pid:idx instead"@,
        }
    }

    pub fn message(&self) -> (r: &'static str)
        ensures
            r@ == self.text(),
    {
        match self {
            OwnerError::Usage => "usage: owner --window-id <window-server-id|pid:idx>",
            OwnerError::MissingId => "missing window ID",
            OwnerError::ExtraArgument => "unexpected extra argument",
            OwnerError::BadPid => "invalid process ID",
            OwnerError::BadIndex => "invalid window idx",
            OwnerError::ZeroIndex => "window idx must be nonzero",
            OwnerError::BadServerId => "invalid WindowServer ID",
            OwnerError::NotFound => "WindowServer ID not found in the active workspace; use pid:idx instead",
        }
    }
}

/// The position of the first colon, or the length where there is none.
pub open spec fn colon(s: Seq<char>) -> int
    decreases s.len(),
{
    if s.len() == 0 {
        0
    } else {
        let i = colon(s.drop_last());
        if i < s.len() - 1 {
            i
        } else if s.last() == ':' {
            s.len() - 1
        } else {
            s.len() as int
        }
    }
}

/// The window that a text names: `pid:idx`, or the number of the window server.
pub open spec fn choice_of(s: Seq<char>) -> Result<WindowChoice, OwnerError> {
    let k = colon(s);
    if k < s.len() {
        let pid = parsed_signed(s.take(k), i32::MIN as int, i32::MAX as int);
        let idx = parsed_unsigned(s.skip(k + 1), u32::MAX as int);
        if pid is None {
            Err(OwnerError::BadPid)
        } else if idx is None {
            Err(OwnerError::BadIndex)
        } else if idx->0 == 0 {
            Err(OwnerError::ZeroIndex)
        } else {
            Ok(WindowChoice::Id(WindowId { pid: pid->0 as i32, idx: idx->0 as u32 }))
        }
    } else {
        match parsed_unsigned(s, u32::MAX as int) {
            Some(n) => Ok(WindowChoice::ServerId(n as u32)),
            None => Err(OwnerError::BadServerId),
        }
    }
}

/// The window that the arguments name.
pub open spec fn owner_choice(args: Seq<Seq<char>>) -> Result<WindowChoice, OwnerError> {
    if args.len() == 0 || args[0] != "--window-id"@ {
        Err(OwnerError::Usage)
    } else if args.len() == 1 {
        Err(OwnerError::MissingId)
    } else if args.len() > 2 {
        Err(OwnerError::ExtraArgument)
    } else {
        choice_of(args[1])
    }
}

fn find_colon(s: &Vec<char>) -> (r: usize)
    ensures
        r == colon(s@),
        r <= s@.len(),
{
    let n: usize = s.len();
    let mut found: usize = n;
    let mut i: usize = 0;
    while i < n
        invariant
            n == s@.len(),
            i <= n,
            found == n || found < i,
            colon(s@.take(i as int)) == (if found == n {
                i
            } else {
                found
            }),
        decreases n - i,
    {
        assert(s@.take(i + 1).drop_last() =~= s@.take(i as int));
        if found == n && s[i] == ':' {
            found = i;
        }
        i = i + 1;
    }
    assert(s@.take(i as int) =~= s@);
    found
}

/// The window that a text names.
pub fn parse_choice(text: &str) -> (r: Result<WindowChoice, OwnerError>)
    ensures
        r == choice_of(text@),
{
    let s = chars_of(text);
    let k: usize = find_colon(&s);
    if k < s.len() {
        let head = slice_of(&s, 0, k);
        let tail = slice_of(&s, k + 1, s.len());
        assert(head@ =~= s@.take(k as int));
        assert(tail@ =~= s@.skip(k + 1));
        let pid: i32 = match parse_i32(&head) {
            Some(pid) => pid,
            None => {
                return Err(OwnerError::BadPid);
            },
        };
        let idx: u32 = match parse_u32(&tail) {
            Some(idx) => idx,
            None => {
                return Err(OwnerError::BadIndex);
            },
        };
        match WindowId::new(pid, idx) {
            Some(id) => Ok(WindowChoice::Id(id)),
            None => Err(OwnerError::ZeroIndex),
        }
    } else {
        match parse_u32(&s) {
            Some(n) => Ok(WindowChoice::ServerId(n)),
            None => Err(OwnerError::BadServerId),
        }
    }
}

/// The window that the arguments name, without that of the program itself.
pub fn parse_owner_args(args: &Vec<String>) -> (r: Result<WindowChoice, OwnerError>)
    ensures
        r == owner_choice(views(args@)),
{
    assert(views(args@).len() == args@.len());
    if args.len() == 0 {
        return Err(OwnerError::Usage);
    }
    assert(views(args@)[0] == args@[0]@);
    if !same_text(args[0].as_str(), "--window-id") {
        return Err(OwnerError::Usage);
    }
    if args.len() == 1 {
        return Err(OwnerError::MissingId);
    }
    if args.len() > 2 {
        return Err(OwnerError::ExtraArgument);
    }
    parse_choice(args[1].as_str())
}

/// The first window with this number.
pub open spec fn window_numbered(windows: Seq<WindowData>, id: u32) -> Option<WindowId>
    decreases windows.len(),
{
    if windows.len() == 0 {
        None
    } else if windows[0].window_server_id == Some(id) {
        Some(windows[0].id)
    } else {
        window_numbered(windows.drop_first(), id)
    }
}

/// The window to claim, among those of the active workspace.
pub fn resolve_choice(choice: WindowChoice, windows: &Vec<WindowData>) -> (r: Result<
    WindowId,
    OwnerError,
>)
    ensures
        r == (match choice {
            WindowChoice::Id(id) => Ok(id),
            WindowChoice::ServerId(n) => match window_numbered(windows@, n) {
                Some(id) => Ok(id),
                None => Err(OwnerError::NotFound),
            },
        }),
{
    let n: u32 = match choice {
        WindowChoice::Id(id) => {
            return Ok(id);
        },
        WindowChoice::ServerId(n) => n,
    };
    let mut i: usize = 0;
    assert(windows@.skip(0) =~= windows@);
    while i < windows.len()
        invariant
            choice == WindowChoice::ServerId(n),
            i <= windows@.len(),
            window_numbered(windows@, n) == window_numbered(windows@.skip(i as int), n),
        decreases windows@.len() - i,
    {
        if windows[i].window_server_id == Some(n) {
            return Ok(windows[i].id);
        }
        assert(windows@.skip(i as int).drop_first() =~= windows@.skip(i + 1));
        i = i + 1;
    }
    Err(OwnerError::NotFound)
}

/// No window with the index zero is ever claimed by its id.
pub proof fn claimed_windows_have_an_index(s: Seq<char>)
    ensures
        choice_of(s) matches Ok(WindowChoice::Id(id)) ==> id.idx != 0,
{
    parsed_numbers_are_in_range(s.skip(colon(s) + 1), u32::MAX as int);
}

proof fn lemma_colon(head: Seq<char>, tail: Seq<char>)
    requires
        forall|i: int| 0 <= i < head.len() ==> head[i] != ':',
    ensures
        colon(head) == head.len(),
        colon(head.push(':') + tail) == head.len(),
    decreases head.len() + tail.len(),
{
    if tail.len() > 0 {
        let all = head.push(':') + tail;
        assert(all.drop_last() =~= head.push(':') + tail.drop_last());
        lemma_colon(head, tail.drop_last());
    } else {
        assert(head.push(':') + tail =~= head.push(':'));
        assert(head.push(':').drop_last() =~= head);
        if head.len() > 0 {
            let shorter = head.drop_last();
            assert forall|i: int| 0 <= i < shorter.len() implies shorter[i] != ':' by {
                assert(head[i] != ':');
            }
            lemma_colon(shorter, tail);
            assert(head[head.len() - 1] != ':');
        }
    }
}

/// A window id that is written as process and index names that window.
pub proof fn written_ids_are_understood(id: WindowId)
    requires
        id.idx != 0,
    ensures
        choice_of(decimal(id.pid as int).push(':') + decimal(id.idx as int)) == Ok::<
            WindowChoice,
            OwnerError,
        >(WindowChoice::Id(id)),
{
    let pid = decimal(id.pid as int);
    let idx = decimal(id.idx as int);
    let s = pid.push(':') + idx;
    decimal_round_trips(id.pid as int, i32::MIN as int, i32::MAX as int);
    decimal_round_trips(id.idx as int, 0, u32::MAX as int);
    assert forall|i: int| 0 <= i < pid.len() implies pid[i] != ':' by {
        assert(is_digit(pid[i]) || pid[i] == '-');
    }
    lemma_colon(pid, idx);
    assert(s.take(pid.len() as int) =~= pid);
    assert(s.skip(pid.len() as int + 1) =~= idx);
}

/// A choice without a colon is a number of the window server, and one with a colon a process and an
/// index; each is refused for what is wrong with it, the process first.
pub proof fn choices_are_refused_for_what_is_wrong(s: Seq<char>, k: int)
    ensures
        (forall|i: int| 0 <= i < s.len() ==> #[trigger] s[i] != ':') ==> choice_of(s) == (
        match parsed_unsigned(s, u32::MAX as int) {
            Some(n) => Ok::<WindowChoice, OwnerError>(WindowChoice::ServerId(n as u32)),
            None => Err(OwnerError::BadServerId),
        }),
        0 <= k < s.len() && s[k] == ':' && (forall|i: int|
            0 <= i < k ==> #[trigger] s[i] != ':') ==> {
            let pid = parsed_signed(s.take(k), i32::MIN as int, i32::MAX as int);
            let idx = parsed_unsigned(s.skip(k + 1), u32::MAX as int);
            &&& pid is None ==> choice_of(s) == Err::<WindowChoice, OwnerError>(OwnerError::BadPid)
            &&& pid is Some && idx is None ==> choice_of(s) == Err::<WindowChoice, OwnerError>(
                OwnerError::BadIndex,
            )
            &&& pid is Some && idx == Some(0int) ==> choice_of(s) == Err::<
                WindowChoice,
                OwnerError,
            >(OwnerError::ZeroIndex)
            &&& pid is Some && idx is Some && idx->0 != 0 ==> choice_of(s) == Ok::<
                WindowChoice,
                OwnerError,
            >(WindowChoice::Id(WindowId { pid: pid->0 as i32, idx: idx->0 as u32 }))
        },
{
    if forall|i: int| 0 <= i < s.len() ==> #[trigger] s[i] != ':' {
        lemma_colon(s, Seq::empty());
    }
    if 0 <= k < s.len() && s[k] == ':' && (forall|i: int| 0 <= i < k ==> #[trigger] s[i] != ':') {
        let head = s.take(k);
        let tail = s.skip(k + 1);
        assert forall|i: int| 0 <= i < head.len() implies head[i] != ':' by {
            assert(head[i] == s[i]);
        }
        lemma_colon(head, tail);
        assert(head.push(':') + tail =~= s);
    }
}

/// The arguments are the option and one choice; anything else is refused for what is missing or too
/// much.
pub proof fn arguments_are_one_option_and_one_choice(args: Seq<Seq<char>>, s: Seq<char>)
    ensures
        owner_choice(Seq::empty()) == Err::<WindowChoice, OwnerError>(OwnerError::Usage),
        args.len() > 0 && args[0] != "--window-id"@ ==> owner_choice(args) == Err::<
            WindowChoice,
            OwnerError,
        >(OwnerError::Usage),
        owner_choice(seq!["--window-id"@]) == Err::<WindowChoice, OwnerError>(
            OwnerError::MissingId,
        ),
        owner_choice(seq!["--window-id"@, s]) == choice_of(s),
        args.len() > 2 && args[0] == "--window-id"@ ==> owner_choice(args) == Err::<
            WindowChoice,
            OwnerError,
        >(OwnerError::ExtraArgument),
{
}

/// A number of the window server stands for the first listed window that has it.
pub proof fn numbers_stand_for_the_first_window(windows: Seq<WindowData>, id: u32, i: int)
    ensures
        0 <= i < windows.len() && windows[i].window_server_id == Some(id) && (forall|j: int|
            0 <= j < i ==> (#[trigger] windows[j]).window_server_id != Some(id))
            ==> window_numbered(windows, id) == Some(windows[i].id),
        (forall|j: int|
            0 <= j < windows.len() ==> (#[trigger] windows[j]).window_server_id != Some(id))
            ==> window_numbered(windows, id) is None,
    decreases windows.len(),
{
    if windows.len() > 0 {
        let rest = windows.drop_first();
        assert(forall|j: int| 0 <= j < rest.len() ==> rest[j] == windows[j + 1]);
        numbers_stand_for_the_first_window(rest, id, i - 1);
        if 0 < i < windows.len() && windows[i].window_server_id == Some(id) && (forall|j: int|
            0 <= j < i ==> (#[trigger] windows[j]).window_server_id != Some(id)) {
            assert(windows[0].window_server_id != Some(id));
            assert forall|j: int| 0 <= j < i - 1 implies (#[trigger] rest[j]).window_server_id
                != Some(id) by {
                assert(windows[j + 1].window_server_id != Some(id));
            }
        }
        if forall|j: int|
            0 <= j < windows.len() ==> (#[trigger] windows[j]).window_server_id != Some(id) {
            assert(windows[0].window_server_id != Some(id));
            assert forall|j: int| 0 <= j < rest.len() implies (#[trigger] rest[j]).window_server_id
                != Some(id) by {
                assert(windows[j + 1].window_server_id != Some(id));
            }
        }
    }
}

/// Every refusal has its own message.
pub proof fn refusals_say_what_is_wrong()
    ensures
        OwnerError::Usage.text() == "usage: owner --window-id <window-server-id|pid:idx>"@,
        OwnerError::MissingId.text() == "missing window ID"@,
        OwnerError::ExtraArgument.text() == "unexpected extra argument"@,
        OwnerError::BadPid.text() == "invalid process ID"@,
        OwnerError::BadIndex.text() == "invalid window idx"@,
        OwnerError::ZeroIndex.text() == "window idx must be nonzero"@,
        OwnerError::BadServerId.text() == "invalid WindowServer ID"@,
        OwnerError::NotFound.text()
            == "WindowServer ID not found in the active workspace; use pid:idx instead"@,
{
}

} // verus!
