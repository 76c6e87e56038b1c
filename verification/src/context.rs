//! Debug sessions and source-context extraction.
//!
//! Sessions borrow the source-object bytes held inside the module table, so
//! they live in a separate, freestanding map keyed by stable module index —
//! built fresh in one read-only pass, and consumed before the table is next
//! mutated.

use vstd::prelude::*;

use crate::lookup::{ModuleEntry, ModuleLookup};
use crate::resolve::resolve_pos;
use crate::source::{session_opens, source_text, SourceSession};
use crate::types::AddrMode;

verus! {

/// A line's trailing carriage return, stripped when the line ended in
/// `\r\n`.
pub open spec fn strip_cr(l: Seq<char>) -> Seq<char> {
    if l.len() > 0 && l.last() == '\r' {
        l.drop_last()
    } else {
        l
    }
}

/// The lines remaining in `s`, with `cur` the part of the current line
/// already read: a `\n` ends the current line (a `\r` just before it is
/// stripped); at the end of the text a nonempty current line still counts.
pub open spec fn lines_from(s: Seq<char>, cur: Seq<char>) -> Seq<Seq<char>>
    decreases s.len(),
{
    if s.len() == 0 {
        if cur.len() == 0 {
            Seq::<Seq<char>>::empty()
        } else {
            seq![cur]
        }
    } else if s[0] == '\n' {
        seq![strip_cr(cur)] + lines_from(s.skip(1), Seq::<char>::empty())
    } else {
        lines_from(s.skip(1), cur.push(s[0]))
    }
}

/// The line split of a text, as `str::lines` documents it: lines are split
/// at `\n` or `\r\n` endings, terminators are not included, a lone `\r`
/// splits nothing, and a final line ending is optional.
pub open spec fn lines_of(s: Seq<char>) -> Seq<Seq<char>> {
    lines_from(s, Seq::<char>::empty())
}

/// Relies on `str::lines`: splits at `\n` or `\r\n`, excludes terminators,
/// does not split at a lone `\r`, and treats a final line ending as
/// optional — the documented behavior, stated by `lines_of`.
#[verifier::external_body]
fn split_lines(s: &String) -> (r: Vec<String>)
    ensures
        r@.map_values(|l: String| l@) == lines_of(s@),
{
    s.lines().map(|l| l.to_string()).collect()
}

/// One row of the session map: a module's stable index, and the debug
/// session opened over its source object, where it has one and it opens.
pub struct SessionSlot<'a> {
    pub module_index: usize,
    pub session: Option<SourceSession<'a>>,
}

/// A slot as `prepare_debug_sessions` fills it for an entry: same stable
/// index; a session exactly when the entry holds a source object over which
/// a session opens, and then a session over those bytes.  A missing source
/// object, or one whose session fails to open, maps to "no session" — never
/// to an error.
pub open spec fn slot_matches_entry(slot: SessionSlot, e: ModuleEntry) -> bool {
    &&& slot.module_index == e.module_index
    &&& match e.source_object {
        Some(so) => {
            &&& slot.session is Some <==> session_opens(so.bytes())
            &&& (slot.session matches Some(sess) ==> sess.bytes() == so.bytes())
        },
        None => slot.session is None,
    }
}

/// A read-only lookup of debug sessions keyed by stable module index,
/// detached from the module table so the table stays free to mutate after
/// the map is dropped.
pub struct DebugSessionMap<'a> {
    pub slots: Vec<SessionSlot<'a>>,
}

/// The first slot position carrying the stable index `mi`, if any.
pub open spec fn slot_pos(slots: Seq<SessionSlot>, mi: usize, from: int) -> Option<int>
    decreases slots.len() - from,
{
    if from < 0 || from >= slots.len() {
        None
    } else if slots[from].module_index == mi {
        Some(from)
    } else {
        slot_pos(slots, mi, from + 1)
    }
}

impl<'a> DebugSessionMap<'a> {
    /// The session recorded for the module with stable index `mi`: none when
    /// the index is unknown or its module has no open session.
    pub fn session_for(&self, mi: usize) -> (r: Option<&SourceSession<'a>>)
        ensures
            match slot_pos(self.slots@, mi, 0) {
                Some(k) => {
                    &&& (self.slots@[k].session matches Some(sess) ==> (r matches Some(rs) && *rs
                        == sess))
                    &&& (self.slots@[k].session is None ==> r is None)
                },
                None => r is None,
            },
    {
        let mut i: usize = 0;
        while i < self.slots.len()
            invariant
                i <= self.slots@.len(),
                slot_pos(self.slots@, mi, 0) == slot_pos(self.slots@, mi, i as int),
            decreases self.slots@.len() - i,
        {
            if self.slots[i].module_index == mi {
                return self.slots[i].session.as_ref();
            }
            i = i + 1;
        }
        None
    }
}

/// The context window cut out of `lines` around the target line: the target
/// is always the exact requested one-based line; leading context is the
/// lines strictly between `start = max(lineno - n, 0)` and the target, and
/// trailing context is up to `n` lines after it — fewer at the end of the
/// file, which is no error.  The window exists only when the line number is
/// at least one and the file reaches it.
pub open spec fn context_window_spec(lines: Seq<Seq<char>>, lineno: int, n: int) -> Option<
    (Seq<Seq<char>>, Seq<char>, Seq<Seq<char>>),
> {
    let target = lineno - 1;
    let start = if lineno >= n {
        lineno - n
    } else {
        0
    };
    let diff = lineno - start;
    let pre_count = if diff >= 1 {
        diff - 1
    } else {
        0
    };
    if target < 0 || target >= lines.len() {
        None
    } else {
        Some(
            (
                lines.subrange(target - pre_count, target),
                lines[target],
                lines.subrange(
                    target + 1,
                    if target + 1 + n <= lines.len() {
                        target + 1 + n
                    } else {
                        lines.len() as int
                    },
                ),
            ),
        )
    }
}

/// Cuts the context window around line `lineno` out of `lines`, exactly as
/// `context_window_spec` states it.
pub fn context_window(lines: &Vec<String>, lineno: u32, n: usize) -> (r: Option<
    (Vec<String>, String, Vec<String>),
>)
    ensures
        ({
            let w = context_window_spec(
                lines@.map_values(|l: String| l@),
                lineno as int,
                n as int,
            );
            match r {
                Some(t) => w matches Some(ws) && t.0@.map_values(|l: String| l@) == ws.0 && t.1@
                    == ws.1 && t.2@.map_values(|l: String| l@) == ws.2,
                None => w is None,
            }
        }),
{
    let ghost lseq = lines@.map_values(|l: String| l@);
    proof {
        assert(lseq.len() == lines@.len());
    }
    let lineno = lineno as usize;
    if lineno == 0 {
        return None;
    }
    let target: usize = lineno - 1;
    if target >= lines.len() {
        return None;
    }
    let start: usize = if lineno >= n {
        lineno - n
    } else {
        0
    };
    let diff: usize = lineno - start;
    let pre_count: usize = if diff >= 1 {
        diff - 1
    } else {
        0
    };
    let pre_start: usize = target - pre_count;
    let mut pre: Vec<String> = Vec::new();
    let mut k: usize = pre_start;
    while k < target
        invariant
            pre_start <= k <= target,
            target < lines@.len(),
            pre@.len() == k - pre_start,
            forall|j: int| 0 <= j < pre@.len() ==> pre@[j] == lines@[pre_start + j],
        decreases target - k,
    {
        pre.push(lines[k].clone());
        k = k + 1;
    }
    let target_line = lines[target].clone();
    let remaining = lines.len() - (target + 1);
    let end: usize = if remaining > n {
        target + 1 + n
    } else {
        lines.len()
    };
    let mut post: Vec<String> = Vec::new();
    let mut k2: usize = target + 1;
    while k2 < end
        invariant
            target + 1 <= k2 <= end,
            end <= lines@.len(),
            post@.len() == k2 - (target + 1),
            forall|j: int| 0 <= j < post@.len() ==> post@[j] == lines@[target + 1 + j],
        decreases end - k2,
    {
        post.push(lines[k2].clone());
        k2 = k2 + 1;
    }
    proof {
        let w = context_window_spec(lseq, lineno as int, n as int);
        assert(w is Some);
        let ws = w.unwrap();
        assert(pre@.map_values(|l: String| l@) =~= ws.0);
        assert(post@.map_values(|l: String| l@) =~= ws.2);
        assert(target_line@ == ws.1);
    }
    Some((pre, target_line, post))
}

/// Context-window law: for a one-based line number within the file, the
/// window exists; its target is exactly the requested line; its leading
/// context holds the `min(n, lineno) - 1` lines immediately before the
/// target (none when `n` is zero), in file order; and its trailing context
/// holds the `min(n, len - lineno)` lines immediately after it, in file
/// order — shorter at the end of the file, which is no error.
pub proof fn lemma_context_window_shape(lines: Seq<Seq<char>>, lineno: int, n: int)
    requires
        0 <= n,
        1 <= lineno <= lines.len(),
    ensures
        context_window_spec(lines, lineno, n) matches Some(w) && {
            let pre_count = if n == 0 {
                0int
            } else if n <= lineno {
                n - 1
            } else {
                lineno - 1
            };
            let post_count = if n <= lines.len() - lineno {
                n
            } else {
                lines.len() - lineno
            };
            &&& w.1 == lines[lineno - 1]
            &&& w.0.len() == pre_count
            &&& (forall|j: int|
                0 <= j < pre_count ==> #[trigger] w.0[j] == lines[lineno - 1 - pre_count + j])
            &&& w.2.len() == post_count
            &&& (forall|j: int| 0 <= j < post_count ==> #[trigger] w.2[j] == lines[lineno + j])
        },
{
}

/// The context-line triple the library yields for a query, stated over the
/// named results of the trusted layer: resolve the module, look up its
/// session by stable index, find the source text for the path, split it into
/// lines and cut the window.  Any miss along the way yields none.
pub open spec fn context_lines_result(
    table: Seq<ModuleEntry>,
    slots: Seq<SessionSlot>,
    addr: u64,
    mode: AddrMode,
    path: Seq<char>,
    lineno: int,
    n: int,
) -> Option<(Seq<Seq<char>>, Seq<char>, Seq<Seq<char>>)> {
    match resolve_pos(table, addr, mode) {
        None => None,
        Some(p) => match slot_pos(slots, table[p].module_index, 0) {
            None => None,
            Some(k) => match slots[k].session {
                None => None,
                Some(sess) => match source_text(sess.bytes(), path) {
                    None => None,
                    Some(text) => context_window_spec(lines_of(text), lineno, n),
                },
            },
        },
    }
}

impl ModuleLookup {
    /// Builds the session map: one read-only pass over the table, opening a
    /// borrowing debug session for every module that holds a source object.
    /// A module without one, or whose debug data does not open, maps to "no
    /// session" — failure here is never an error.
    pub fn prepare_debug_sessions<'a>(&'a self) -> (r: DebugSessionMap<'a>)
        requires
            self.wf(),
        ensures
            r.slots@.len() == self@.len(),
            forall|p: int|
                0 <= p < self@.len() ==> slot_matches_entry(#[trigger] r.slots@[p], self@[p]),
    {
        let entries = self.entries();
        let mut slots: Vec<SessionSlot<'a>> = Vec::new();
        let mut p: usize = 0;
        while p < entries.len()
            invariant
                self.wf(),
                entries@ == self@,
                p <= self@.len(),
                slots@.len() == p,
                forall|k: int|
                    0 <= k < p ==> slot_matches_entry(#[trigger] slots@[k], self@[k]),
            decreases self@.len() - p,
        {
            let entry = &entries[p];
            let session = match &entry.source_object {
                Some(so) => so.open_session(),
                None => None,
            };
            slots.push(SessionSlot { module_index: entry.module_index, session });
            p = p + 1;
        }
        DebugSessionMap { slots }
    }

    /// Looks up the source of the given (one-based) line in the given file,
    /// plus up to `n` context lines on either side.  Returns none when the
    /// address resolves to no module, the module has no session, the path is
    /// not found, or the file does not reach the line — never an error.
    pub fn get_context_lines(
        &self,
        debug_sessions: &DebugSessionMap<'_>,
        addr: u64,
        addr_mode: AddrMode,
        abs_path: &str,
        lineno: u32,
        n: usize,
    ) -> (r: Option<(Vec<String>, String, Vec<String>)>)
        ensures
            ({
                let w = context_lines_result(
                    self@,
                    debug_sessions.slots@,
                    addr,
                    addr_mode,
                    abs_path@,
                    lineno as int,
                    n as int,
                );
                match r {
                    Some(t) => w matches Some(ws) && t.0@.map_values(|l: String| l@) == ws.0
                        && t.1@ == ws.1 && t.2@.map_values(|l: String| l@) == ws.2,
                    None => w is None,
                }
            }),
    {
        let index = match self.get_module_index_by_addr(addr, addr_mode) {
            Some(i) => i,
            None => {
                return None;
            },
        };
        let session = match debug_sessions.session_for(index) {
            Some(s) => s,
            None => {
                return None;
            },
        };
        let source = match session.source_by_path(abs_path) {
            Some(s) => s,
            None => {
                return None;
            },
        };
        let lines = split_lines(&source);
        context_window(&lines, lineno, n)
    }
}

} // verus!
