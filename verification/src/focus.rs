//! Focus detection: process-tree ancestry walks and session matching.
//!
//! A tracked session is matched to the focused window by checking whether
//! the window's process id equals the session's pid or is a strict
//! ancestor of it in the OS process tree. The tree is read one parent
//! link at a time from per-process status records; every algorithm here
//! is also available over an explicit table snapshot, where its whole
//! behaviour is pinned down.

use vstd::prelude::*;
use vstd::string::StringExecFns;

verus! {

/// A snapshot of one tracked session, handed over by the session registry.
/// Read-only for this subsystem; session ids are unique within one snapshot.
#[derive(Clone, Debug)]
pub struct SessionDescriptor {
    /// Stable session identifier.
    pub session: String,
    /// Pid of the session's tracked (child) process.
    pub pid: u32,
    /// Whether the session currently holds a captured turn.
    pub has_turn: bool,
}

/// Focus resolution outcome when no unique session matches.
///
/// These are valid resolved states, not mechanism failures: callers choose
/// their own reaction (ignore, or prompt for disambiguation).
#[derive(Debug)]
pub enum FocusError {
    /// No registered session matches the focused window.
    NoSession,
    /// Several sessions match (e.g. split panes of one terminal window);
    /// all matching session ids, in the input snapshot's order.
    Ambiguous(Vec<String>),
}

/// Upper bound on ancestry-walk steps: a defensive cap against cyclic or
/// otherwise malformed OS-reported parent links.
pub const MAX_WALK_STEPS: u32 = 1024;

/// The ids, joined with a comma and a space.
pub open spec fn joined_ids(ids: Seq<Seq<char>>) -> Seq<char>
    decreases ids.len(),
{
    if ids.len() == 0 {
        Seq::empty()
    } else if ids.len() == 1 {
        ids[0]
    } else {
        joined_ids(ids.drop_last()) + ", "@ + ids.last()
    }
}

/// The human-readable description of a focus-resolution outcome.
pub open spec fn focus_error_message(e: FocusError) -> Seq<char> {
    match e {
        FocusError::NoSession => "no clippy session in focused window"@,
        FocusError::Ambiguous(ids) => "ambiguous — multiple sessions match: "@ + joined_ids(
            ids@.map_values(|x: String| x@),
        ),
    }
}

impl FocusError {
    /// Describe the outcome for diagnostics, listing every ambiguous
    /// session id in order.
    pub fn message(&self) -> (r: String)
        ensures
            r@ == focus_error_message(*self),
    {
        match self {
            FocusError::NoSession => String::from_str("no clippy session in focused window"),
            FocusError::Ambiguous(ids) => {
                let ghost j = ids@.map_values(|x: String| x@);
                let mut s = String::from_str("ambiguous — multiple sessions match: ");
                let ghost prefix = s@;
                let mut i: usize = 0;
                while i < ids.len()
                    invariant
                        0 <= i <= ids@.len(),
                        j == ids@.map_values(|x: String| x@),
                        s@ == prefix + joined_ids(j.take(i as int)),
                    decreases ids@.len() - i,
                {
                    if i > 0 {
                        s.append(", ");
                    }
                    s.append(ids[i].as_str());
                    proof {
                        assert(j.take(i as int + 1).drop_last() =~= j.take(i as int));
                        assert(j.take(i as int + 1).last() == ids@[i as int]@);
                        if i == 0 {
                            assert(joined_ids(j.take(1)) == j[0]);
                            assert(s@ =~= prefix + joined_ids(j.take(1)));
                        } else {
                            assert(s@ =~= prefix + joined_ids(j.take(i as int + 1)));
                        }
                    }
                    i += 1;
                }
                proof {
                    assert(j.take(i as int) =~= j);
                }
                s
            },
        }
    }
}

// ---------------------------------------------------------------------------
// Status-record parsing
// ---------------------------------------------------------------------------

/// A decimal digit byte.
pub open spec fn is_digit(b: u8) -> bool {
    48 <= b && b <= 57
}

/// Whitespace accepted around the parent-id value: space, tab and CR,
/// the only whitespace a status record's line can carry.
pub open spec fn is_blank(b: u8) -> bool {
    b == 32 || b == 9 || b == 13
}

pub open spec fn all_digits(s: Seq<u8>) -> bool {
    forall|i: int| 0 <= i < s.len() ==> is_digit(#[trigger] s[i])
}

/// Value of a digit string read in base 10, most significant digit first.
pub open spec fn digits_value(s: Seq<u8>) -> int
    decreases s.len(),
{
    if s.len() == 0 {
        0
    } else {
        digits_value(s.drop_last()) * 10 + (s.last() - 48)
    }
}

/// What a decimal field parses to: a `u32` exactly when the field is a
/// non-empty digit string whose value fits. The accepted grammar is
/// digits only — no sign, no other notation — which coincides with what
/// the OS writes into a parent-id field.
pub open spec fn parse_u32_spec(s: Seq<u8>) -> Option<u32> {
    if s.len() > 0 && all_digits(s) && digits_value(s) <= u32::MAX {
        Some(digits_value(s) as u32)
    } else {
        None
    }
}

/// The string with leading and trailing blanks removed.
pub open spec fn trim_blanks(s: Seq<u8>) -> Seq<u8>
    decreases s.len(),
{
    if s.len() == 0 {
        s
    } else if is_blank(s.first()) {
        trim_blanks(s.drop_first())
    } else if is_blank(s.last()) {
        trim_blanks(s.drop_last())
    } else {
        s
    }
}

/// Length of the first line of `s` (up to, not including, a newline).
pub open spec fn line_len(s: Seq<u8>) -> nat
    decreases s.len(),
{
    if s.len() == 0 {
        0
    } else if s.first() == 10 {
        0
    } else {
        1 + line_len(s.drop_first())
    }
}

pub open spec fn first_line(s: Seq<u8>) -> Seq<u8> {
    s.take(line_len(s) as int)
}

/// The bytes of the parent-id field tag, `PPid:`.
pub open spec fn ppid_tag() -> Seq<u8> {
    seq![80u8, 80u8, 105u8, 100u8, 58u8]
}

pub open spec fn is_ppid_line(line: Seq<u8>) -> bool {
    line.len() >= 5 && line.subrange(0, 5) == ppid_tag()
}

/// What the parent-id line yields: its value field, trimmed and parsed.
pub open spec fn line_ppid(line: Seq<u8>) -> Option<u32> {
    parse_u32_spec(trim_blanks(line.skip(5)))
}

/// The parent id carried by a status record: the value of the first
/// `PPid:` line, or `None` when no such line exists or it does not parse.
pub open spec fn status_ppid(s: Seq<u8>) -> Option<u32>
    decreases s.len(),
{
    if s.len() == 0 {
        None
    } else if is_ppid_line(first_line(s)) {
        line_ppid(first_line(s))
    } else if line_len(s) + 1 < s.len() {
        status_ppid(s.skip(line_len(s) as int + 1))
    } else {
        None
    }
}

proof fn lemma_line_len_bound(s: Seq<u8>)
    ensures
        line_len(s) <= s.len(),
    decreases s.len(),
{
    if s.len() != 0 && s.first() != 10 {
        lemma_line_len_bound(s.drop_first());
    }
}

/// With all-digit input, appending digits never shrinks the value.
proof fn lemma_digits_value_grows(s: Seq<u8>)
    requires
        all_digits(s),
    ensures
        digits_value(s) >= 0,
        s.len() > 0 ==> digits_value(s) >= digits_value(s.drop_last()),
    decreases s.len(),
{
    if s.len() > 0 {
        assert(is_digit(s.last()));
        assert(all_digits(s.drop_last()));
        lemma_digits_value_grows(s.drop_last());
    }
}

/// Prefixes of an all-digit string carry values no larger than the whole.
proof fn lemma_digits_prefix_le(s: Seq<u8>, i: int)
    requires
        all_digits(s),
        0 <= i <= s.len(),
    ensures
        digits_value(s.take(i)) <= digits_value(s),
    decreases s.len() - i,
{
    if i < s.len() {
        lemma_digits_prefix_le(s, i + 1);
        assert(all_digits(s.take(i + 1)));
        assert(s.take(i + 1).drop_last() =~= s.take(i));
        lemma_digits_value_grows(s.take(i + 1));
    } else {
        assert(s.take(i) =~= s);
    }
}

/// Parse a decimal `u32` out of `s[lo..hi]`, ignoring surrounding blanks.
fn parse_u32_window(s: &Vec<u8>, lo: usize, hi: usize) -> (r: Option<u32>)
    requires
        lo <= hi <= s@.len(),
    ensures
        r == parse_u32_spec(trim_blanks(s@.subrange(lo as int, hi as int))),
{
    let ghost orig = s@.subrange(lo as int, hi as int);
    let mut a = lo;
    let mut b = hi;
    while a < b && (s[a] == 32 || s[a] == 9 || s[a] == 13)
        invariant
            lo <= a <= b <= hi <= s@.len(),
            trim_blanks(orig) == trim_blanks(s@.subrange(a as int, b as int)),
        decreases b - a,
    {
        proof {
            let w = s@.subrange(a as int, b as int);
            assert(w.drop_first() =~= s@.subrange(a as int + 1, b as int));
        }
        a += 1;
    }
    while a < b && (s[b - 1] == 32 || s[b - 1] == 9 || s[b - 1] == 13)
        invariant
            lo <= a <= b <= hi <= s@.len(),
            a < b ==> !is_blank(s@[a as int]),
            trim_blanks(orig) == trim_blanks(s@.subrange(a as int, b as int)),
        decreases b - a,
    {
        proof {
            let w = s@.subrange(a as int, b as int);
            assert(w.drop_last() =~= s@.subrange(a as int, b as int - 1));
        }
        b -= 1;
    }
    let ghost window = s@.subrange(a as int, b as int);
    proof {
        if a < b {
            assert(window.first() == s@[a as int]);
            assert(window.last() == s@[b as int - 1]);
        }
        assert(trim_blanks(window) == window);
    }
    if a == b {
        return None;
    }
    let mut val: u64 = 0;
    let mut k = a;
    while k < b
        invariant
            lo <= a <= k <= b <= hi <= s@.len(),
            window == s@.subrange(a as int, b as int),
            trim_blanks(s@.subrange(lo as int, hi as int)) == window,
            all_digits(window.take(k - a)),
            val == digits_value(window.take(k - a)),
            val <= u32::MAX,
        decreases b - k,
    {
        let c = s[k];
        if c < 48 || c > 57 {
            proof {
                assert(window[k - a] == c);
                assert(!all_digits(window));
            }
            return None;
        }
        let nv: u64 = val * 10 + ((c - 48) as u64);
        proof {
            assert(window.take(k - a + 1).drop_last() =~= window.take(k - a));
            assert(window.take(k - a + 1).last() == c);
            assert(all_digits(window.take(k - a + 1)));
        }
        if nv > 0xFFFF_FFFF {
            proof {
                if all_digits(window) {
                    lemma_digits_prefix_le(window, k - a + 1);
                }
            }
            return None;
        }
        val = nv;
        k += 1;
    }
    proof {
        assert(window.take(b - a) =~= window);
    }
    Some(val as u32)
}

/// Index just past the line that starts at `start`.
fn find_line_end(s: &Vec<u8>, start: usize) -> (j: usize)
    requires
        start <= s@.len(),
    ensures
        start <= j <= s@.len(),
        j - start == line_len(s@.skip(start as int)),
        j < s@.len() ==> s@[j as int] == 10,
{
    let mut j = start;
    while j < s.len() && s[j] != 10
        invariant
            start <= j <= s@.len(),
            line_len(s@.skip(start as int)) == (j - start) + line_len(s@.skip(j as int)),
        decreases s@.len() - j,
    {
        proof {
            let w = s@.skip(j as int);
            assert(w.first() == s@[j as int]);
            assert(w.drop_first() =~= s@.skip(j as int + 1));
        }
        j += 1;
    }
    proof {
        if j < s@.len() {
            assert(s@.skip(j as int).first() == s@[j as int]);
        } else {
            assert(s@.skip(j as int).len() == 0);
        }
    }
    j
}

/// Extract the parent process id from the text of a per-process status
/// record: the value of its first `PPid:` line.
pub fn parse_ppid(status: &Vec<u8>) -> (r: Option<u32>)
    ensures
        r == status_ppid(status@),
{
    let n = status.len();
    let mut i: usize = 0;
    proof {
        assert(status@.skip(0) =~= status@);
    }
    while i < n
        invariant
            0 <= i <= n == status@.len(),
            status_ppid(status@) == status_ppid(status@.skip(i as int)),
        decreases n - i,
    {
        let ghost rest = status@.skip(i as int);
        let j = find_line_end(status, i);
        proof {
            assert(rest.len() == n - i);
            lemma_line_len_bound(rest);
        }
        if j - i >= 5
            && status[i] == 80
            && status[i + 1] == 80
            && status[i + 2] == 105
            && status[i + 3] == 100
            && status[i + 4] == 58
        {
            proof {
                let fl = first_line(rest);
                assert(fl.len() == j - i);
                assert(forall|k: int| 0 <= k < fl.len() ==> fl[k] == status@[i + k]);
                assert(fl.subrange(0, 5) =~= ppid_tag());
                assert(is_ppid_line(fl));
                assert(fl.skip(5) =~= status@.subrange(i as int + 5, j as int));
            }
            return parse_u32_window(status, i + 5, j);
        }
        proof {
            let fl = first_line(rest);
            assert(fl.len() == j - i);
            if fl.len() >= 5 {
                assert(fl[0] == status@[i as int]);
                assert(fl[1] == status@[i as int + 1]);
                assert(fl[2] == status@[i as int + 2]);
                assert(fl[3] == status@[i as int + 3]);
                assert(fl[4] == status@[i as int + 4]);
                if fl.subrange(0, 5) == ppid_tag() {
                    assert(fl.subrange(0, 5)[0] == 80);
                    assert(fl.subrange(0, 5)[1] == 80);
                    assert(fl.subrange(0, 5)[2] == 105);
                    assert(fl.subrange(0, 5)[3] == 100);
                    assert(fl.subrange(0, 5)[4] == 58);
                }
            }
            assert(!is_ppid_line(fl));
        }
        if j >= n - 1 {
            proof {
                assert(line_len(rest) + 1 >= rest.len());
                assert(status_ppid(rest) == None::<u32>);
            }
            return None;
        }
        proof {
            assert(line_len(rest) as int + 1 < rest.len());
            assert(rest.skip(line_len(rest) as int + 1) =~= status@.skip(j as int + 1));
        }
        i = j + 1;
    }
    proof {
        assert(status@.skip(i as int).len() == 0);
    }
    None
}

// ---------------------------------------------------------------------------
// Ancestry walks
// ---------------------------------------------------------------------------
//
// The walk's per-step decision is one verified function, `walk_transition`,
// shared by the live walk and the snapshot walk: the live side only fetches
// a parent id (from the injected lookup) and performs the returned step.

/// What one walk step does, given the parent id fetched for `current`.
#[derive(Clone, Copy, Debug, PartialEq, Eq, Structural)]
pub enum WalkStep {
    /// The parent equals the sought ancestor: the walk succeeds.
    Found,
    /// Advance to this parent and keep walking.
    Advance(u32),
    /// The walk ends without a match: the tree root was reached, the entry
    /// is degenerate (its own parent), or the record was unreadable.
    Stop,
}

/// The walk's decision for one fetched parent id: found on equality,
/// advance only to a proper parent above the tree root, stop otherwise.
pub open spec fn walk_decision(ancestor: u32, current: u32, parent: Option<u32>) -> WalkStep {
    match parent {
        Some(p) => if p == ancestor {
            WalkStep::Found
        } else if p > 1 && p != current {
            WalkStep::Advance(p)
        } else {
            WalkStep::Stop
        },
        None => WalkStep::Stop,
    }
}

/// Decide one ancestry-walk step.
pub fn walk_transition(ancestor: u32, current: u32, parent: Option<u32>) -> (s: WalkStep)
    ensures
        s == walk_decision(ancestor, current, parent),
{
    match parent {
        Some(p) => {
            if p == ancestor {
                WalkStep::Found
            } else if p > 1 && p != current {
                WalkStep::Advance(p)
            } else {
                WalkStep::Stop
            }
        },
        None => WalkStep::Stop,
    }
}

/// Parent-id lookup in a process-table snapshot: the first entry for `pid`.
pub open spec fn parent_in(table: Seq<(u32, u32)>, pid: u32) -> Option<u32>
    decreases table.len(),
{
    if table.len() == 0 {
        None
    } else if table[0].0 == pid {
        Some(table[0].1)
    } else {
        parent_in(table.drop_first(), pid)
    }
}

/// The bounded upward walk: starting from `current`, does following parent
/// links reach `ancestor` within `fuel` steps? A step advances only while
/// the parent is above the tree root and distinct from the current pid.
pub open spec fn walk_finds(table: Seq<(u32, u32)>, ancestor: u32, current: u32, fuel: nat) -> bool
    decreases fuel,
{
    if fuel == 0 {
        false
    } else {
        match walk_decision(ancestor, current, parent_in(table, current)) {
            WalkStep::Found => true,
            WalkStep::Advance(p) => walk_finds(table, ancestor, p, (fuel - 1) as nat),
            WalkStep::Stop => false,
        }
    }
}

/// Strict ancestry in a table snapshot: `ancestor` is reached by the
/// bounded walk from `descendant`, and a process is never its own ancestor.
pub open spec fn ancestor_in(table: Seq<(u32, u32)>, ancestor: u32, descendant: u32) -> bool {
    ancestor != descendant && walk_finds(table, ancestor, descendant, MAX_WALK_STEPS as nat)
}

/// Parent-id lookup in an explicit `(pid, parent pid)` table.
pub fn lookup_parent(table: &Vec<(u32, u32)>, pid: u32) -> (r: Option<u32>)
    ensures
        r == parent_in(table@, pid),
{
    let mut i: usize = 0;
    proof {
        assert(table@.skip(0) =~= table@);
    }
    while i < table.len()
        invariant
            0 <= i <= table@.len(),
            parent_in(table@, pid) == parent_in(table@.skip(i as int), pid),
        decreases table@.len() - i,
    {
        proof {
            let w = table@.skip(i as int);
            assert(w[0] == table@[i as int]);
            assert(w.drop_first() =~= table@.skip(i as int + 1));
        }
        if table[i].0 == pid {
            return Some(table[i].1);
        }
        i += 1;
    }
    proof {
        assert(table@.skip(i as int).len() == 0);
    }
    None
}

/// Strict-ancestry check over an explicit process-table snapshot: the same
/// bounded walk as [`is_ancestor`], with its whole behaviour pinned down.
pub fn is_ancestor_in_table(table: &Vec<(u32, u32)>, ancestor_pid: u32, descendant_pid: u32) -> (r:
    bool)
    ensures
        r == ancestor_in(table@, ancestor_pid, descendant_pid),
{
    if ancestor_pid == descendant_pid {
        return false;
    }
    let mut current = descendant_pid;
    let mut fuel: u32 = MAX_WALK_STEPS;
    loop
        invariant
            ancestor_pid != descendant_pid,
            walk_finds(table@, ancestor_pid, descendant_pid, MAX_WALK_STEPS as nat) == walk_finds(
                table@,
                ancestor_pid,
                current,
                fuel as nat,
            ),
        decreases fuel,
    {
        if fuel == 0 {
            return false;
        }
        let parent = lookup_parent(table, current);
        match walk_transition(ancestor_pid, current, parent) {
            WalkStep::Found => {
                return true;
            },
            WalkStep::Advance(p) => {
                current = p;
                fuel = fuel - 1;
            },
            WalkStep::Stop => {
                return false;
            },
        }
    }
}

/// Check whether `ancestor_pid` is a strict ancestor of `descendant_pid`
/// in the live process tree, read through the injected parent lookup
/// (the platform shell passes its `/proc` status reader).
///
/// Walks upward from `descendant_pid`, taking exactly the step
/// [`walk_decision`] prescribes for each fetched parent id, for at most
/// [`MAX_WALK_STEPS`] steps. Ancestry is strict: equal pids never count.
/// A `true` result always stems from a fetched parent id that the walk
/// decision maps to `Found`; more cannot be promised of a walk over
/// machine state, and [`is_ancestor_in_table`] pins the walk in full over
/// a snapshot.
pub fn is_ancestor<F: Fn(u32) -> Option<u32> + Copy>(
    get_parent: F,
    ancestor_pid: u32,
    descendant_pid: u32,
) -> (r: bool)
    requires
        forall|p: u32| #[trigger] call_requires(get_parent, (p,)),
    ensures
        ancestor_pid == descendant_pid ==> r == false,
        r ==> exists|cur: u32, parent: Option<u32>|
            {
                &&& #[trigger] call_ensures(get_parent, (cur,), parent)
                &&& walk_decision(ancestor_pid, cur, parent) is Found
            },
{
    if ancestor_pid == descendant_pid {
        return false;
    }
    let mut current = descendant_pid;
    let mut steps: u32 = 0;
    while steps < MAX_WALK_STEPS
        invariant
            ancestor_pid != descendant_pid,
            forall|p: u32| #[trigger] call_requires(get_parent, (p,)),
        decreases MAX_WALK_STEPS - steps,
    {
        let parent = get_parent(current);
        match walk_transition(ancestor_pid, current, parent) {
            WalkStep::Found => {
                proof {
                    assert(call_ensures(get_parent, (current,), parent));
                }
                return true;
            },
            WalkStep::Advance(p) => {
                current = p;
            },
            WalkStep::Stop => {
                return false;
            },
        }
        steps += 1;
    }
    false
}

// ---------------------------------------------------------------------------
// Session selection
// ---------------------------------------------------------------------------

/// The ids of the sessions marked as candidates, in input order.
pub open spec fn flagged_ids(sessions: Seq<SessionDescriptor>, flags: Seq<bool>) -> Seq<Seq<char>>
    recommends
        flags.len() == sessions.len(),
    decreases sessions.len(),
{
    if sessions.len() == 0 {
        Seq::empty()
    } else {
        flagged_ids(sessions.drop_last(), flags.drop_last()) + if flags[sessions.len() - 1] {
            seq![sessions.last().session@]
        } else {
            Seq::empty()
        }
    }
}

/// How a resolution result relates to the candidate ids: no candidate is
/// `NoSession`, one candidate is that id, several are `Ambiguous` with all
/// of them in input order.
pub open spec fn selection_matches(r: Result<String, FocusError>, ids: Seq<Seq<char>>) -> bool {
    if ids.len() == 0 {
        r matches Err(FocusError::NoSession)
    } else if ids.len() == 1 {
        r matches Ok(s) && s@ == ids[0]
    } else {
        r matches Err(FocusError::Ambiguous(v)) && v@.map_values(|x: String| x@) == ids
    }
}

/// Turn per-session candidate flags into the resolution result.
pub fn select_session(sessions: &Vec<SessionDescriptor>, flags: &Vec<bool>) -> (r: Result<
    String,
    FocusError,
>)
    requires
        flags@.len() == sessions@.len(),
    ensures
        selection_matches(r, flagged_ids(sessions@, flags@)),
{
    let mut ids: Vec<String> = Vec::new();
    let mut i: usize = 0;
    while i < sessions.len()
        invariant
            0 <= i <= sessions@.len(),
            flags@.len() == sessions@.len(),
            ids@.map_values(|x: String| x@) == flagged_ids(
                sessions@.take(i as int),
                flags@.take(i as int),
            ),
        decreases sessions@.len() - i,
    {
        let ghost pre = ids@;
        if flags[i] {
            ids.push(sessions[i].session.clone());
        }
        proof {
            let sp = sessions@.take(i as int + 1);
            let fp = flags@.take(i as int + 1);
            assert(sp.drop_last() =~= sessions@.take(i as int));
            assert(fp.drop_last() =~= flags@.take(i as int));
            assert(sp.last() == sessions@[i as int]);
            if flags@[i as int] {
                assert(ids@.map_values(|x: String| x@) =~= pre.map_values(|x: String| x@) + seq![
                    sessions@[i as int].session@,
                ]);
            } else {
                assert(flagged_ids(sp, fp) =~= flagged_ids(sp.drop_last(), fp.drop_last()));
            }
        }
        i += 1;
    }
    proof {
        assert(sessions@.take(i as int) =~= sessions@);
        assert(flags@.take(i as int) =~= flags@);
    }
    if ids.len() == 0 {
        Err(FocusError::NoSession)
    } else if ids.len() == 1 {
        let mut ids = ids;
        match ids.pop() {
            Some(only) => Ok(only),
            None => Err(FocusError::NoSession),
        }
    } else {
        Err(FocusError::Ambiguous(ids))
    }
}

/// Whether a session is a candidate for the focused window: its pid
/// equals the window's, or the window's process is a strict ancestor.
pub open spec fn candidate_decision(window_pid: u32, session_pid: u32, ancestry: bool) -> bool {
    session_pid == window_pid || ancestry
}

/// Decide whether a session is a candidate, given its pid and the
/// ancestry verdict for it. Both resolvers take their per-session
/// decision through this one function.
pub fn candidate_transition(window_pid: u32, session_pid: u32, ancestry: bool) -> (c: bool)
    ensures
        c == candidate_decision(window_pid, session_pid, ancestry),
{
    session_pid == window_pid || ancestry
}

/// Resolve which tracked session, if any, is owned by the focused window's
/// process, walking the live process tree through the injected parent
/// lookup (the platform shell passes its `/proc` status reader).
///
/// A session is a candidate when its pid equals `window_pid` or when
/// `window_pid` is a strict ancestor of it. Because live ancestry walks
/// read machine state, the contract fixes the outcome relative to some
/// flag assignment that marks at least every directly matching pid; the
/// mapping from flags to the result is exact, and
/// [`resolve_session_in_table`] pins the whole resolution over a snapshot.
pub fn resolve_session<F: Fn(u32) -> Option<u32> + Copy>(
    get_parent: F,
    window_pid: u32,
    sessions: &Vec<SessionDescriptor>,
) -> (r: Result<String, FocusError>)
    requires
        forall|p: u32| #[trigger] call_requires(get_parent, (p,)),
    ensures
        sessions@.len() == 0 ==> r matches Err(FocusError::NoSession),
        sessions@.len() == 1 && sessions@[0].pid == window_pid ==> (r matches Ok(s) && s@
            == sessions@[0].session@),
        sessions@.len() == 2 && sessions@[0].pid == window_pid && sessions@[1].pid == window_pid
            ==> (r matches Err(FocusError::Ambiguous(v)) && v@.map_values(|x: String| x@) == seq![
            sessions@[0].session@,
            sessions@[1].session@,
        ]),
        exists|flags: Seq<bool>|
            {
                &&& flags.len() == sessions@.len()
                &&& (forall|i: int|
                    0 <= i < sessions@.len() && sessions@[i].pid == window_pid ==> flags[i])
                &&& selection_matches(r, #[trigger] flagged_ids(sessions@, flags))
            },
{
    let mut flags: Vec<bool> = Vec::new();
    let mut i: usize = 0;
    while i < sessions.len()
        invariant
            0 <= i <= sessions@.len(),
            flags@.len() == i,
            forall|k: int| 0 <= k < i && sessions@[k].pid == window_pid ==> flags@[k],
            forall|p: u32| #[trigger] call_requires(get_parent, (p,)),
        decreases sessions@.len() - i,
    {
        let ancestry = if sessions[i].pid == window_pid {
            false
        } else {
            is_ancestor(get_parent, window_pid, sessions[i].pid)
        };
        let m = candidate_transition(window_pid, sessions[i].pid, ancestry);
        flags.push(m);
        i += 1;
    }
    let r = select_session(sessions, &flags);
    proof {
        assert(selection_matches(r, flagged_ids(sessions@, flags@)));
        if sessions@.len() == 0 {
            assert(flagged_ids(sessions@, flags@).len() == 0);
        }
        if sessions@.len() == 1 && sessions@[0].pid == window_pid {
            lemma_single_candidate(sessions@, flags@, 0);
        }
        if sessions@.len() == 2 && sessions@[0].pid == window_pid && sessions@[1].pid
            == window_pid {
            lemma_two_candidates(sessions@, flags@, 0, 1);
        }
    }
    r
}

/// Candidate flags over a table snapshot: the candidate decision applied
/// to each session, with strict ancestry taken from the snapshot.
pub open spec fn candidate_flags(
    table: Seq<(u32, u32)>,
    window_pid: u32,
    sessions: Seq<SessionDescriptor>,
) -> Seq<bool> {
    Seq::new(
        sessions.len(),
        |i: int| candidate_decision(
            window_pid,
            sessions[i].pid,
            ancestor_in(table, window_pid, sessions[i].pid),
        ),
    )
}

/// Resolve the focused session against an explicit process-table snapshot.
/// The outcome is a function of the snapshot alone: every candidate is
/// exactly a session whose pid equals the window's or nests beneath it.
pub fn resolve_session_in_table(
    table: &Vec<(u32, u32)>,
    window_pid: u32,
    sessions: &Vec<SessionDescriptor>,
) -> (r: Result<String, FocusError>)
    ensures
        selection_matches(r, flagged_ids(sessions@, candidate_flags(table@, window_pid, sessions@))),
{
    let mut flags: Vec<bool> = Vec::new();
    let mut i: usize = 0;
    while i < sessions.len()
        invariant
            0 <= i <= sessions@.len(),
            flags@.len() == i,
            forall|k: int|
                0 <= k < i ==> flags@[k] == candidate_flags(table@, window_pid, sessions@)[k],
        decreases sessions@.len() - i,
    {
        let ancestry = is_ancestor_in_table(table, window_pid, sessions[i].pid);
        let m = candidate_transition(window_pid, sessions[i].pid, ancestry);
        flags.push(m);
        i += 1;
    }
    proof {
        assert(flags@ =~= candidate_flags(table@, window_pid, sessions@));
    }
    select_session(sessions, &flags)
}

// ---------------------------------------------------------------------------
// Laws of ancestry and selection
// ---------------------------------------------------------------------------

/// Ancestry is strict: no process is its own ancestor, in any snapshot.
pub proof fn lemma_strict_ancestry(table: Seq<(u32, u32)>, pid: u32)
    ensures
        !ancestor_in(table, pid, pid),
{
}

/// A process whose chain of parent links reaches the tree root (pid 1)
/// within the walk bound, each step proper and above the root.
pub open spec fn reaches_root(table: Seq<(u32, u32)>, pid: u32, fuel: nat) -> bool
    decreases fuel,
{
    if fuel == 0 {
        false
    } else {
        match parent_in(table, pid) {
            Some(p) => p == 1 || (p > 1 && p != pid && reaches_root(table, p, (fuel - 1) as nat)),
            None => false,
        }
    }
}

proof fn lemma_reaches_implies_walk(table: Seq<(u32, u32)>, pid: u32, fuel: nat, big: nat)
    requires
        reaches_root(table, pid, fuel),
        big >= fuel,
    ensures
        walk_finds(table, 1, pid, big),
    decreases fuel,
{
    let p = parent_in(table, pid)->Some_0;
    if p != 1 {
        lemma_reaches_implies_walk(table, p, (fuel - 1) as nat, (big - 1) as nat);
    }
}

/// The tree root is a strict ancestor of every live process: one whose
/// parent chain reaches pid 1 within the walk bound. (The root itself is
/// the one exception, since ancestry is strict.)
pub proof fn lemma_root_is_ancestor(table: Seq<(u32, u32)>, pid: u32, fuel: nat)
    requires
        reaches_root(table, pid, fuel),
        fuel <= MAX_WALK_STEPS,
        pid != 1,
    ensures
        ancestor_in(table, 1, pid),
{
    lemma_reaches_implies_walk(table, pid, fuel, MAX_WALK_STEPS as nat);
}

/// With no candidate flagged, no session id is selected.
pub proof fn lemma_no_candidates(sessions: Seq<SessionDescriptor>, flags: Seq<bool>)
    requires
        flags.len() == sessions.len(),
        forall|i: int| 0 <= i < flags.len() ==> !flags[i],
    ensures
        flagged_ids(sessions, flags) =~= Seq::<Seq<char>>::empty(),
    decreases sessions.len(),
{
    if sessions.len() > 0 {
        lemma_no_candidates(sessions.drop_last(), flags.drop_last());
    }
}

/// With exactly one candidate flagged, exactly its id is selected: a
/// resolution meeting [`selection_matches`] must return `Ok` with that id.
pub proof fn lemma_single_candidate(sessions: Seq<SessionDescriptor>, flags: Seq<bool>, j: int)
    requires
        flags.len() == sessions.len(),
        0 <= j < flags.len(),
        flags[j],
        forall|i: int| 0 <= i < flags.len() && i != j ==> !flags[i],
    ensures
        flagged_ids(sessions, flags) =~= seq![sessions[j].session@],
    decreases sessions.len(),
{
    let last = sessions.len() - 1;
    if j == last {
        lemma_no_candidates(sessions.drop_last(), flags.drop_last());
    } else {
        lemma_single_candidate(sessions.drop_last(), flags.drop_last(), j);
    }
}

/// With exactly two candidates flagged, both ids are selected, in input
/// order: a resolution meeting [`selection_matches`] must be `Ambiguous`
/// carrying exactly those two ids.
pub proof fn lemma_two_candidates(sessions: Seq<SessionDescriptor>, flags: Seq<bool>, j: int, k: int)
    requires
        flags.len() == sessions.len(),
        0 <= j < k < flags.len(),
        flags[j],
        flags[k],
        forall|i: int| 0 <= i < flags.len() && i != j && i != k ==> !flags[i],
    ensures
        flagged_ids(sessions, flags) =~= seq![sessions[j].session@, sessions[k].session@],
    decreases sessions.len(),
{
    let last = sessions.len() - 1;
    if k == last {
        lemma_single_candidate(sessions.drop_last(), flags.drop_last(), j);
    } else {
        lemma_two_candidates(sessions.drop_last(), flags.drop_last(), j, k);
    }
}

} // verus!
