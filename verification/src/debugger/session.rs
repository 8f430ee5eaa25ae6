//! A debug session: whether a program is being debugged and how it runs,
//! the breakpoints by file, and the stack frames and scopes last fetched.
//! The requests to the debug adapter are made by the host; the session
//! decides whether a request may be made and records what came back.

use crate::common::keyboard::id_index;
use crate::text::{copy_string, str_eq};
use vstd::prelude::*;

verus! {

/// How the debugged program runs.
#[derive(Debug, Clone, Copy, PartialEq, Eq, Structural)]
pub enum DebugState {
    Stopped,
    Running,
    Paused,
    Stepping,
}

/// A breakpoint the adapter set: its id, file and line, the condition it
/// waits for, and whether the adapter could place it.
#[derive(Debug, Clone, PartialEq, Eq)]
pub struct Breakpoint {
    pub id: String,
    pub file: String,
    pub line: u32,
    pub condition: Option<String>,
    pub verified: bool,
}

/// A frame of the debugged program's stack.
#[derive(Debug, Clone)]
pub struct StackFrame {
    pub id: i64,
    pub name: String,
    pub file: Option<String>,
    pub line: Option<u32>,
    pub column: Option<u32>,
}

/// A variable, with its fields when it has any.
#[derive(Debug)]
pub struct Variable {
    pub name: String,
    pub value: String,
    pub value_type: Option<String>,
    pub children: Option<Vec<Variable>>,
}

/// A scope of variables (locals, globals and the like).
#[derive(Debug)]
pub struct Scope {
    pub name: String,
    pub variables: Vec<Variable>,
}

/// What a session holds: the session id, the state, the files that have
/// breakpoints with the breakpoints of each (in the order they were set),
/// and the frames and scopes last fetched.
pub struct DebugView {
    pub session_id: Option<Seq<char>>,
    pub state: DebugState,
    pub files: Seq<Seq<char>>,
    pub breakpoints: Seq<Seq<Breakpoint>>,
    pub frames: Seq<StackFrame>,
    pub scopes: Seq<Scope>,
}

/// The session after the adapter started one with id `id`: it runs.
pub open spec fn started_view(v: DebugView, id: Seq<char>) -> DebugView {
    DebugView { session_id: Some(id), state: DebugState::Running, ..v }
}

/// The session after it stopped: no session, nothing running, no frames
/// and no scopes; the breakpoints stay.
pub open spec fn stopped_view(v: DebugView) -> DebugView {
    DebugView {
        session_id: None,
        state: DebugState::Stopped,
        frames: Seq::empty(),
        scopes: Seq::empty(),
        ..v
    }
}

/// The session after the adapter set `bp` in `file`: added last to the
/// file's breakpoints, the file added last if it had none.
pub open spec fn added_view(v: DebugView, file: Seq<char>, bp: Breakpoint) -> DebugView {
    match id_index(v.files, file) {
        Some(i) => DebugView { breakpoints: v.breakpoints.update(i, v.breakpoints[i].push(bp)), ..v },
        None => DebugView { files: v.files.push(file), breakpoints: v.breakpoints.push(seq![bp]), ..v },
    }
}

/// The breakpoints of `s` whose id is not `id`, in order.
pub open spec fn without_id(s: Seq<Breakpoint>, id: Seq<char>) -> Seq<Breakpoint>
    decreases s.len(),
{
    if s.len() == 0 {
        s
    } else if s.last().id@ == id {
        without_id(s.drop_last(), id)
    } else {
        without_id(s.drop_last(), id).push(s.last())
    }
}

/// The session after the adapter removed breakpoint `id`: gone from every
/// file; the files stay, with what is left of their breakpoints.
pub open spec fn removed_view(v: DebugView, id: Seq<char>) -> DebugView {
    DebugView {
        breakpoints: Seq::new(v.breakpoints.len(), |i: int| without_id(v.breakpoints[i], id)),
        ..v
    }
}

/// The session after its state changed to `state`.
pub open spec fn with_state(v: DebugView, state: DebugState) -> DebugView {
    DebugView { state, ..v }
}

/// The error every request but starting gives without a session.
pub open spec fn no_session_error() -> Seq<char> {
    "No active debug session"@
}

/// `without_id` keeps exactly the breakpoints whose id is not `id`.
pub proof fn lemma_without_id(s: Seq<Breakpoint>, id: Seq<char>)
    ensures
        forall|b: Breakpoint| #[trigger] without_id(s, id).contains(b) <==> (s.contains(b) && b.id@ != id),
        without_id(s, id).len() <= s.len(),
    decreases s.len(),
{
    if s.len() > 0 {
        let p = s.drop_last();
        let wp = without_id(p, id);
        let w = without_id(s, id);
        lemma_without_id(p, id);
        assert(s =~= p.push(s.last()));
        if s.last().id@ == id {
            assert(w == wp);
        } else {
            assert(w == wp.push(s.last()));
        }
        assert forall|b: Breakpoint| #[trigger] w.contains(b) <==> (s.contains(b) && b.id@ != id) by {
            if s.contains(b) && b.id@ != id {
                let k = choose|k: int| 0 <= k < s.len() && s[k] == b;
                if k < s.len() - 1 {
                    assert(p[k] == b);
                    assert(p.contains(b));
                    assert(wp.contains(b));
                    let m = choose|m: int| 0 <= m < wp.len() && wp[m] == b;
                    assert(w[m] == b);
                } else {
                    assert(w[w.len() - 1] == b);
                }
            }
            if w.contains(b) {
                let k = choose|k: int| 0 <= k < w.len() && w[k] == b;
                if s.last().id@ != id && k == w.len() - 1 {
                    assert(s[s.len() - 1] == b);
                } else {
                    assert(wp[k] == b);
                    assert(wp.contains(b));
                    let m = choose|m: int| 0 <= m < p.len() && p[m] == b;
                    assert(s[m] == b);
                }
            }
        }
    }
}

/// No breakpoint of `s` has id `id`: `without_id` keeps them all.
pub proof fn lemma_without_absent_id(s: Seq<Breakpoint>, id: Seq<char>)
    requires
        forall|k: int| 0 <= k < s.len() ==> (#[trigger] s[k]).id@ != id,
    ensures
        without_id(s, id) == s,
    decreases s.len(),
{
    if s.len() > 0 {
        let p = s.drop_last();
        assert forall|k: int| 0 <= k < p.len() implies (#[trigger] p[k]).id@ != id by {
            assert(p[k] == s[k]);
        }
        lemma_without_absent_id(p, id);
        assert(s.last().id@ != id);
        assert(p.push(s.last()) =~= s);
    }
}

/// Removing a breakpoint takes it out of every file and keeps every other
/// breakpoint where it was; the files and everything else stay.
pub proof fn lemma_breakpoint_removal(v: DebugView, id: Seq<char>)
    requires
        view_wf(v),
    ensures
        view_wf(removed_view(v, id)),
        removed_view(v, id).files == v.files,
        removed_view(v, id).session_id == v.session_id,
        removed_view(v, id).state == v.state,
        forall|i: int, b: Breakpoint| 0 <= i < v.files.len() ==>
            (#[trigger] removed_view(v, id).breakpoints[i].contains(b) <==> (v.breakpoints[i].contains(b) && b.id@ != id)),
{
    assert forall|i: int, b: Breakpoint| 0 <= i < v.files.len() implies
        (#[trigger] removed_view(v, id).breakpoints[i].contains(b) <==> (v.breakpoints[i].contains(b) && b.id@ != id)) by {
        lemma_without_id(v.breakpoints[i], id);
    }
}

/// A breakpoint just set is found under its file, last.
pub proof fn lemma_added_found(v: DebugView, file: Seq<char>, bp: Breakpoint)
    requires
        view_wf(v),
    ensures
        view_wf(added_view(v, file, bp)),
        id_index(added_view(v, file, bp).files, file) matches Some(i)
            && added_view(v, file, bp).breakpoints[i].last() == bp
            && added_view(v, file, bp).breakpoints[i].drop_last() == (if i < v.files.len() { v.breakpoints[i] } else { Seq::<Breakpoint>::empty() }),
{
    let w = added_view(v, file, bp);
    match id_index(v.files, file) {
        Some(i) => {
            assert(w.files == v.files);
            assert(w.breakpoints[i].drop_last() =~= v.breakpoints[i]);
        },
        None => {
            assert(w.files[v.files.len() as int] == file);
            assert forall|a: int, b: int| 0 <= a < b < w.files.len() implies w.files[a] != w.files[b] by {
                if b == v.files.len() {
                    assert(v.files[a] != file);
                }
            }
            let k = choose|k: int| 0 <= k < w.files.len() && w.files[k] == file;
            assert(k == v.files.len());
            assert(w.breakpoints[k].drop_last() =~= Seq::<Breakpoint>::empty());
        },
    }
}

/// Removing a breakpoint right after setting it (its id new) leaves every
/// file's breakpoints as they were; a file it brought in is left with none.
pub proof fn lemma_add_then_remove(v: DebugView, file: Seq<char>, bp: Breakpoint)
    requires
        view_wf(v),
        forall|i: int, k: int| 0 <= i < v.breakpoints.len() && 0 <= k < v.breakpoints[i].len()
            ==> (#[trigger] v.breakpoints[i][k]).id@ != bp.id@,
    ensures
        ({
            let w = removed_view(added_view(v, file, bp), bp.id@);
            &&& view_wf(w)
            &&& w.files.len() <= v.files.len() + 1
            &&& w.files.subrange(0, v.files.len() as int) == v.files
            &&& forall|i: int| 0 <= i < v.files.len() ==> #[trigger] w.breakpoints[i] == v.breakpoints[i]
            &&& forall|i: int| v.files.len() <= i < w.files.len() ==> #[trigger] w.breakpoints[i].len() == 0
            &&& w.session_id == v.session_id
            &&& w.state == v.state
            &&& w.frames == v.frames
            &&& w.scopes == v.scopes
        }),
{
    let a = added_view(v, file, bp);
    let w = removed_view(a, bp.id@);
    lemma_added_found(v, file, bp);
    assert forall|i: int| 0 <= i < v.files.len() implies #[trigger] w.breakpoints[i] == v.breakpoints[i] by {
        assert forall|k: int| 0 <= k < v.breakpoints[i].len() implies (#[trigger] v.breakpoints[i][k]).id@ != bp.id@ by {}
        lemma_without_absent_id(v.breakpoints[i], bp.id@);
        if a.breakpoints[i] != v.breakpoints[i] {
            assert(a.breakpoints[i] == v.breakpoints[i].push(bp));
            assert(a.breakpoints[i].drop_last() =~= v.breakpoints[i]);
        }
    }
    assert forall|i: int| v.files.len() <= i < w.files.len() implies #[trigger] w.breakpoints[i].len() == 0 by {
        assert(id_index(v.files, file) is None);
        assert(i == v.files.len());
        assert(a.breakpoints[i] == seq![bp]);
        assert(seq![bp].drop_last() =~= Seq::<Breakpoint>::empty());
        assert(w.breakpoints[i] == without_id(seq![bp], bp.id@));
        assert(without_id(seq![bp], bp.id@) == without_id(Seq::<Breakpoint>::empty(), bp.id@));
    }
    assert(w.files.subrange(0, v.files.len() as int) =~= v.files);
}

/// A stopped session has no session id, so every request that needs one
/// is refused; its breakpoints stay.
pub proof fn lemma_stop_ends_session(v: DebugView)
    ensures
        stopped_view(v).session_id is None,
        stopped_view(v).state == DebugState::Stopped,
        stopped_view(v).files == v.files,
        stopped_view(v).breakpoints == v.breakpoints,
{
}

/// A debug session's state.
pub struct DebugSession {
    session_id: Option<String>,
    state: DebugState,
    files: Vec<String>,
    breakpoints: Vec<Vec<Breakpoint>>,
    stack_frames: Vec<StackFrame>,
    scopes: Vec<Scope>,
}

impl View for DebugSession {
    type V = DebugView;

    closed spec fn view(&self) -> DebugView {
        DebugView {
            session_id: match self.session_id {
                Some(s) => Some(s@),
                None => None,
            },
            state: self.state,
            files: self.files@.map_values(|f: String| f@),
            breakpoints: self.breakpoints@.map_values(|b: Vec<Breakpoint>| b@),
            frames: self.stack_frames@,
            scopes: self.scopes@,
        }
    }
}

/// Each file is listed once, with its breakpoints.
pub open spec fn view_wf(v: DebugView) -> bool {
    &&& v.files.no_duplicates()
    &&& v.files.len() == v.breakpoints.len()
}

/// The breakpoints of `list` whose id is not `id`, in order.
fn keep_other_ids(list: Vec<Breakpoint>, id: &str) -> (r: Vec<Breakpoint>)
    ensures
        r@ == without_id(list@, id@),
{
    let ghost orig = list@;
    let mut rest = list;
    let mut kept: Vec<Breakpoint> = Vec::new();
    let total: usize = rest.len();
    let mut k: usize = 0;
    while rest.len() > 0
        invariant
            k <= orig.len(),
            k + rest@.len() == orig.len(),
            orig.len() == total,
            rest@ == orig.skip(k as int),
            kept@ == without_id(orig.take(k as int), id@),
        decreases rest@.len(),
    {
        let bp = rest.remove(0);
        proof {
            assert(orig.take(k + 1).drop_last() =~= orig.take(k as int));
            assert(orig.take(k + 1).last() == orig[k as int]);
            assert(bp == orig[k as int]);
        }
        if !str_eq(bp.id.as_str(), id) {
            kept.push(bp);
        }
        k += 1;
        proof {
            assert(rest@ =~= orig.skip(k as int));
        }
    }
    assert(orig.take(k as int) =~= orig);
    kept
}

impl DebugSession {
    /// Each file is listed once, with its breakpoints.
    pub open spec fn wf(&self) -> bool {
        view_wf(self@)
    }

    /// No session, nothing running, no breakpoint, frame or scope.
    pub fn new() -> (r: Self)
        ensures
            r.wf(),
            r@.session_id is None,
            r@.state == DebugState::Stopped,
            r@.files.len() == 0,
            r@.breakpoints.len() == 0,
            r@.frames.len() == 0,
            r@.scopes.len() == 0,
    {
        let r = Self {
            session_id: None,
            state: DebugState::Stopped,
            files: Vec::new(),
            breakpoints: Vec::new(),
            stack_frames: Vec::new(),
            scopes: Vec::new(),
        };
        assert(r@.files =~= Seq::<Seq<char>>::empty());
        r
    }

    /// The id of the session, if one is active.
    pub fn session_id(&self) -> (r: Option<&str>)
        ensures
            match r {
                Some(s) => self@.session_id == Some(s@),
                None => self@.session_id is None,
            },
    {
        match &self.session_id {
            Some(s) => Some(s.as_str()),
            None => None,
        }
    }

    /// How the program runs.
    pub fn state(&self) -> (r: DebugState)
        ensures
            r == self@.state,
    {
        self.state
    }

    /// The number of files with breakpoints.
    pub fn breakpoint_file_count(&self) -> (r: usize)
        requires
            self.wf(),
        ensures
            r == self@.files.len(),
    {
        self.files.len()
    }

    /// The breakpoints set in `file`, in the order they were set; `None`
    /// when none was ever set there.
    pub fn breakpoints_in(&self, file: &str) -> (r: Option<&Vec<Breakpoint>>)
        requires
            self.wf(),
        ensures
            match id_index(self@.files, file@) {
                Some(i) => r matches Some(b) && b@ == self@.breakpoints[i],
                None => r is None,
            },
    {
        match self.find_file(file) {
            Some(i) => Some(&self.breakpoints[i]),
            None => None,
        }
    }

    /// The stack frames last fetched.
    pub fn stack_frames(&self) -> (r: &Vec<StackFrame>)
        ensures
            r@ == self@.frames,
    {
        &self.stack_frames
    }

    /// The scopes last fetched.
    pub fn scopes(&self) -> (r: &Vec<Scope>)
        ensures
            r@ == self@.scopes,
    {
        &self.scopes
    }

    fn find_file(&self, file: &str) -> (r: Option<usize>)
        requires
            self.wf(),
        ensures
            match r {
                Some(i) => id_index(self@.files, file@) == Some(i as int) && i < self@.files.len(),
                None => id_index(self@.files, file@) is None,
            },
    {
        let mut i: usize = 0;
        while i < self.files.len()
            invariant
                i <= self.files@.len(),
                self@.files.len() == self.files@.len(),
                self@.files.no_duplicates(),
                forall|j: int| 0 <= j < i ==> self@.files[j] != file@,
            decreases self.files@.len() - i,
        {
            if str_eq(self.files[i].as_str(), file) {
                proof {
                    assert(self@.files[i as int] == file@);
                    let k = choose|k: int| 0 <= k < self@.files.len() && self@.files[k] == file@;
                    assert(self@.files.no_duplicates());
                    assert(k == i);
                }
                return Some(i);
            }
            i += 1;
        }
        None
    }

    /// The id of the active session, for a request that needs one; the
    /// error `No active debug session` without one.
    pub fn active_session(&self) -> (r: Result<String, String>)
        ensures
            match self@.session_id {
                Some(id) => r matches Ok(s) && s@ == id,
                None => r matches Err(e) && e@ == no_session_error(),
            },
    {
        match &self.session_id {
            Some(s) => Ok(copy_string(s)),
            None => Err("No active debug session".to_string()),
        }
    }

    /// Records that the adapter started session `session_id`: it runs.
    pub fn started(&mut self, session_id: String)
        ensures
            final(self)@ == started_view(old(self)@, session_id@),
    {
        self.session_id = Some(session_id);
        self.state = DebugState::Running;
    }

    /// Records that the session stopped: no session, nothing running, and
    /// no frames or scopes; the breakpoints stay.
    pub fn stopped(&mut self)
        ensures
            final(self)@ == stopped_view(old(self)@),
    {
        self.session_id = None;
        self.state = DebugState::Stopped;
        self.stack_frames = Vec::new();
        self.scopes = Vec::new();
        assert(self@.frames =~= Seq::<StackFrame>::empty());
        assert(self@.scopes =~= Seq::<Scope>::empty());
    }

    /// Records that the adapter set `bp` in `file`: it goes last among the
    /// file's breakpoints.
    pub fn breakpoint_added(&mut self, file: String, bp: Breakpoint)
        requires
            old(self).wf(),
        ensures
            final(self).wf(),
            final(self)@ == added_view(old(self)@, file@, bp),
    {
        let ghost v0 = self@;
        match self.find_file(file.as_str()) {
            Some(i) => {
                let mut list = self.breakpoints.remove(i);
                list.push(bp);
                self.breakpoints.insert(i, list);
                proof {
                    assert(self@.breakpoints =~= v0.breakpoints.update(i as int, v0.breakpoints[i as int].push(bp)));
                    assert(self@.files =~= v0.files);
                }
            },
            None => {
                let mut list: Vec<Breakpoint> = Vec::new();
                list.push(bp);
                self.files.push(file);
                self.breakpoints.push(list);
                proof {
                    assert(list@ =~= seq![bp]);
                    assert(self@.files =~= v0.files.push(file@));
                    assert(self@.breakpoints =~= v0.breakpoints.push(seq![bp]));
                    assert forall|a: int, b: int| 0 <= a < b < self@.files.len() implies self@.files[a] != self@.files[b] by {
                        if b == self@.files.len() - 1 {
                            assert(v0.files[a] != file@);
                        }
                    }
                }
            },
        }
    }

    /// Records that the adapter removed breakpoint `id`: it goes from
    /// every file.
    pub fn breakpoint_removed(&mut self, id: &str)
        requires
            old(self).wf(),
        ensures
            final(self).wf(),
            final(self)@ == removed_view(old(self)@, id@),
    {
        let ghost v0 = self@;
        let n = self.breakpoints.len();
        let mut i: usize = 0;
        while i < n
            invariant
                n == self.breakpoints@.len(),
                i <= n,
                self@.files == v0.files,
                self@.session_id == v0.session_id,
                self@.state == v0.state,
                self@.frames == v0.frames,
                self@.scopes == v0.scopes,
                v0.breakpoints.len() == n,
                forall|j: int| 0 <= j < i ==> self@.breakpoints[j] == without_id(v0.breakpoints[j], id@),
                forall|j: int| i <= j < n ==> self@.breakpoints[j] == v0.breakpoints[j],
            decreases n - i,
        {
            let ghost vb = self@.breakpoints;
            let list = self.breakpoints.remove(i);
            let kept = keep_other_ids(list, id);
            self.breakpoints.insert(i, kept);
            proof {
                assert forall|j: int| 0 <= j < n && j != i implies #[trigger] self@.breakpoints[j] == vb[j] by {}
                assert(self@.breakpoints[i as int] == without_id(v0.breakpoints[i as int], id@));
            }
            i += 1;
        }
        assert(self@.breakpoints =~= removed_view(v0, id@).breakpoints);
    }

    /// Records that the program was resumed: it runs.
    pub fn resumed(&mut self)
        ensures
            final(self)@ == with_state(old(self)@, DebugState::Running),
    {
        self.state = DebugState::Running;
    }

    /// Records that a step was started (over, into or out).
    pub fn stepped(&mut self)
        ensures
            final(self)@ == with_state(old(self)@, DebugState::Stepping),
    {
        self.state = DebugState::Stepping;
    }

    /// Records the stack frames the adapter reported.
    pub fn stack_trace_received(&mut self, frames: Vec<StackFrame>)
        ensures
            final(self)@ == (DebugView { frames: frames@, ..old(self)@ }),
    {
        self.stack_frames = frames;
    }

    /// Records the scopes the adapter reported.
    pub fn variables_received(&mut self, scopes: Vec<Scope>)
        ensures
            final(self)@ == (DebugView { scopes: scopes@, ..old(self)@ }),
    {
        self.scopes = scopes;
    }
}

impl Default for DebugSession {
    /// The same as `new`.
    fn default() -> (r: Self)
        ensures
            r.wf(),
            r@.session_id is None,
            r@.state == DebugState::Stopped,
            r@.files.len() == 0,
            r@.frames.len() == 0,
            r@.scopes.len() == 0,
    {
        Self::new()
    }
}

} // verus!
