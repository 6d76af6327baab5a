//! The saved workspace: tabs, their split panes, and the terminal
//! sessions of each pane; how a loaded pane is made whole again, and
//! which session is the one in focus.
use vstd::prelude::*;

use crate::theme::ProfileId;

verus! {

broadcast use vstd::string::group_string_axioms;

#[derive(Clone, Copy, Debug, PartialEq, Eq, Structural)]
pub enum PaneFocus {
    Left,
    Right,
}

/// A saved terminal session: its working directory, its multiplexer
/// session and socket, and the file its shell writes exit statuses to.
pub struct SessionSnapshot {
    pub cwd: Option<String>,
    pub session_id: Option<String>,
    pub socket_path: Option<String>,
    pub status_path: Option<String>,
}

/// The values a session gets for what it lacks: a fresh session id, the
/// default socket and a fresh status file.
pub struct SessionDefaults {
    pub session_id: String,
    pub socket_path: String,
    pub status_path: String,
}

#[verifier::ext_equal]
pub struct SessionView {
    pub cwd: Option<Seq<char>>,
    pub session_id: Option<Seq<char>>,
    pub socket_path: Option<Seq<char>>,
    pub status_path: Option<Seq<char>>,
}

pub open spec fn opt_view(o: Option<String>) -> Option<Seq<char>> {
    match o {
        Some(s) => Some(s@),
        None => None,
    }
}

impl View for SessionSnapshot {
    type V = SessionView;

    open spec fn view(&self) -> SessionView {
        SessionView {
            cwd: opt_view(self.cwd),
            session_id: opt_view(self.session_id),
            socket_path: opt_view(self.socket_path),
            status_path: opt_view(self.status_path),
        }
    }
}

#[verifier::ext_equal]
pub struct DefaultsView {
    pub session_id: Seq<char>,
    pub socket_path: Seq<char>,
    pub status_path: Seq<char>,
}

impl View for SessionDefaults {
    type V = DefaultsView;

    open spec fn view(&self) -> DefaultsView {
        DefaultsView { session_id: self.session_id@, socket_path: self.socket_path@, status_path: self.status_path@ }
    }
}

/// A session with what it lacks filled in from the defaults.
pub open spec fn filled(s: SessionView, d: DefaultsView) -> SessionView {
    SessionView {
        cwd: s.cwd,
        session_id: match s.session_id {
            Some(v) => Some(v),
            None => Some(d.session_id),
        },
        socket_path: match s.socket_path {
            Some(v) => Some(v),
            None => Some(d.socket_path),
        },
        status_path: match s.status_path {
            Some(v) => Some(v),
            None => Some(d.status_path),
        },
    }
}

/// A session with nothing saved.
pub open spec fn empty_session() -> SessionView {
    SessionView { cwd: None, session_id: None, socket_path: None, status_path: None }
}

pub(crate) fn clone_opt(o: &Option<String>) -> (c: Option<String>)
    ensures
        opt_view(c) == opt_view(*o),
{
    match o {
        Some(s) => Some(s.clone()),
        None => None,
    }
}

impl SessionSnapshot {
    /// A new session in `cwd` with the given fresh values.
    pub fn new(cwd: Option<String>, fresh: SessionDefaults) -> (s: SessionSnapshot)
        ensures
            s@ == (SessionView {
                cwd: opt_view(cwd),
                session_id: Some(fresh@.session_id),
                socket_path: Some(fresh@.socket_path),
                status_path: Some(fresh@.status_path),
            }),
    {
        SessionSnapshot {
            cwd,
            session_id: Some(fresh.session_id),
            socket_path: Some(fresh.socket_path),
            status_path: Some(fresh.status_path),
        }
    }

    /// The session with what it lacks filled in from `fresh`.
    pub fn normalized(self, fresh: SessionDefaults) -> (s: SessionSnapshot)
        ensures
            s@ == filled(self@, fresh@),
    {
        let mut s = self;
        if s.session_id.is_none() {
            s.session_id = Some(fresh.session_id);
        }
        if s.socket_path.is_none() {
            s.socket_path = Some(fresh.socket_path);
        }
        if s.status_path.is_none() {
            s.status_path = Some(fresh.status_path);
        }
        s
    }

    /// A copy of the session.
    pub fn copy(&self) -> (c: SessionSnapshot)
        ensures
            c@ == self@,
    {
        SessionSnapshot {
            cwd: clone_opt(&self.cwd),
            session_id: clone_opt(&self.session_id),
            socket_path: clone_opt(&self.socket_path),
            status_path: clone_opt(&self.status_path),
        }
    }
}

/// The sessions of one pane, and which of them is shown.
pub struct PaneSnapshot {
    pub sessions: Vec<SessionSnapshot>,
    pub active_session: usize,
}

pub open spec fn sessions_view(v: Seq<SessionSnapshot>) -> Seq<SessionView> {
    Seq::new(v.len(), |i: int| v[i]@)
}

pub open spec fn defaults_view(v: Seq<SessionDefaults>) -> Seq<DefaultsView> {
    Seq::new(v.len(), |i: int| v[i]@)
}

/// The sessions of a loaded pane made whole: a pane without sessions gets
/// one, each session has what it lacks filled in from the fresh values
/// of its position, and the shown session is one of them.
pub open spec fn normalized_sessions(sessions: Seq<SessionView>, fresh: Seq<DefaultsView>) -> Seq<SessionView> {
    let base = if sessions.len() == 0 { seq![empty_session()] } else { sessions };
    Seq::new(base.len(), |i: int| filled(base[i], fresh[i]))
}

/// The shown session of a pane with `count` sessions, moved onto the last
/// one when past it.
pub open spec fn clamped_active(active: nat, count: nat) -> nat {
    let last = if count > 0 { (count - 1) as nat } else { 0 };
    if active < last {
        active
    } else {
        last
    }
}

impl PaneSnapshot {
    /// A pane with one session in `cwd`.
    pub fn from_cwd(cwd: Option<String>, fresh: SessionDefaults) -> (p: PaneSnapshot)
        ensures
            sessions_view(p.sessions@) == seq![SessionView {
                cwd: opt_view(cwd),
                session_id: Some(fresh@.session_id),
                socket_path: Some(fresh@.socket_path),
                status_path: Some(fresh@.status_path),
            }],
            p.active_session == 0,
    {
        let mut sessions: Vec<SessionSnapshot> = Vec::new();
        sessions.push(SessionSnapshot::new(cwd, fresh));
        let p = PaneSnapshot { sessions, active_session: 0 };
        assert(sessions_view(p.sessions@) =~= seq![p.sessions@[0]@]);
        p
    }

    /// The pane made whole after loading, with `fresh[i]` as the fresh
    /// values for session `i`.
    pub fn normalized(self, fresh: Vec<SessionDefaults>) -> (p: PaneSnapshot)
        requires
            fresh.len() >= self.sessions.len(),
            fresh.len() >= 1,
        ensures
            sessions_view(p.sessions@) == normalized_sessions(sessions_view(self.sessions@), defaults_view(fresh@)),
            p.active_session == clamped_active(self.active_session as nat, p.sessions@.len()),
            p.active_session < p.sessions@.len(),
    {
        let mut base = self.sessions;
        if base.len() == 0 {
            base.push(SessionSnapshot { cwd: None, session_id: None, socket_path: None, status_path: None });
        }
        let ghost bv = sessions_view(base@);
        assert(bv =~= (if self.sessions@.len() == 0 { seq![empty_session()] } else { sessions_view(self.sessions@) }));
        let ghost fv = defaults_view(fresh@);
        let n = base.len();
        let mut out: Vec<SessionSnapshot> = Vec::new();
        let mut rest = base;
        let mut defaults = fresh;
        let mut i: usize = 0;
        while i < n
            invariant
                n == bv.len(),
                n <= fv.len(),
                i <= n,
                sessions_view(rest@) == bv.skip(i as int),
                defaults_view(defaults@) == fv.skip(i as int),
                sessions_view(out@) == Seq::new(i as nat, |k: int| filled(bv[k], fv[k])),
            decreases n - i,
        {
            assert(sessions_view(rest@).len() == rest@.len());
            assert(defaults_view(defaults@).len() == defaults@.len());
            let ghost rb = rest@;
            let ghost db = defaults@;
            let s = rest.remove(0);
            let d = defaults.remove(0);
            assert(s@ == sessions_view(rb)[0]);
            assert(d@ == defaults_view(db)[0]);
            assert(sessions_view(rb)[0] == bv.skip(i as int)[0]);
            assert(defaults_view(db)[0] == fv.skip(i as int)[0]);
            assert(s@ == bv[i as int]);
            assert(d@ == fv[i as int]);
            assert(sessions_view(rest@) =~= bv.skip(i + 1)) by {
                assert forall|k: int| 0 <= k < rest@.len() implies sessions_view(rest@)[k] == bv.skip(i + 1)[k] by {
                    assert(rest@[k] == rb[k + 1]);
                    assert(sessions_view(rb)[k + 1] == bv.skip(i as int)[k + 1]);
                }
            }
            assert(defaults_view(defaults@) =~= fv.skip(i + 1)) by {
                assert forall|k: int| 0 <= k < defaults@.len() implies defaults_view(defaults@)[k] == fv.skip(i + 1)[k] by {
                    assert(defaults@[k] == db[k + 1]);
                    assert(defaults_view(db)[k + 1] == fv.skip(i as int)[k + 1]);
                }
            }
            let ghost before = sessions_view(out@);
            let filled_session = s.normalized(d);
            assert(filled_session@ == filled(bv[i as int], fv[i as int]));
            out.push(filled_session);
            assert(sessions_view(out@) =~= before.push(filled(bv[i as int], fv[i as int])));
            assert(sessions_view(out@) =~= Seq::new((i + 1) as nat, |k: int| filled(bv[k], fv[k])));
            i += 1;
        }
        let last = n - 1;
        let active = if self.active_session < last { self.active_session } else { last };
        let p = PaneSnapshot { sessions: out, active_session: active };
        assert(sessions_view(p.sessions@) =~= normalized_sessions(sessions_view(self.sessions@), defaults_view(fresh@)));
        p
    }
}

/// A normalized pane is whole and stays as it is: it has at least one
/// session, each with an id, a socket and a status file; each loaded
/// session keeps its directory and what it had; the shown session is one of
/// them; and normalizing it again, whatever the fresh values, changes
/// nothing.
pub proof fn law_normalized_whole_and_stable(
    sessions: Seq<SessionView>,
    active: nat,
    fresh: Seq<DefaultsView>,
    again: Seq<DefaultsView>,
)
    requires
        fresh.len() >= sessions.len(),
        fresh.len() >= 1,
        again.len() >= fresh.len(),
    ensures
        ({
            let r = normalized_sessions(sessions, fresh);
            &&& r.len() == (if sessions.len() == 0 { 1 } else { sessions.len() })
            &&& forall|i: int| 0 <= i < r.len() ==> {
                &&& (#[trigger] r[i]).session_id is Some
                &&& r[i].socket_path is Some
                &&& r[i].status_path is Some
            }
            &&& forall|i: int| 0 <= i < sessions.len() ==> {
                &&& (#[trigger] r[i]).cwd == sessions[i].cwd
                &&& (sessions[i].session_id is Some ==> r[i].session_id == sessions[i].session_id)
                &&& (sessions[i].socket_path is Some ==> r[i].socket_path == sessions[i].socket_path)
                &&& (sessions[i].status_path is Some ==> r[i].status_path == sessions[i].status_path)
            }
            &&& clamped_active(active, r.len()) < r.len()
            &&& normalized_sessions(r, again) == r
            &&& clamped_active(clamped_active(active, r.len()), r.len()) == clamped_active(active, r.len())
        }),
{
    let r = normalized_sessions(sessions, fresh);
    assert(normalized_sessions(r, again) =~= r);
}

/// A saved tab: its title, terminal profile, the two panes of its split,
/// where the split is, and which side has the focus.
pub struct TabSnapshot {
    pub title: String,
    pub profile: ProfileId,
    pub left_pane: Option<PaneSnapshot>,
    pub right_pane: Option<PaneSnapshot>,
    pub split_position: Option<i32>,
    pub active_pane: PaneFocus,
}

impl TabSnapshot {
    /// The first tab of a new workspace: one pane on the left.
    pub fn default_tab(fresh: SessionDefaults) -> (t: TabSnapshot)
        ensures
            t.title@ == "tab 1"@,
            t.profile == ProfileId::Default,
            t.left_pane matches Some(p) && p.active_session == 0 && sessions_view(p.sessions@) == seq![SessionView {
                cwd: None,
                session_id: Some(fresh@.session_id),
                socket_path: Some(fresh@.socket_path),
                status_path: Some(fresh@.status_path),
            }],
            t.right_pane is None,
            t.split_position is None,
            t.active_pane == PaneFocus::Left,
    {
        TabSnapshot {
            title: "tab 1".to_string(),
            profile: ProfileId::Default,
            left_pane: Some(PaneSnapshot::from_cwd(None, fresh)),
            right_pane: None,
            split_position: None,
            active_pane: PaneFocus::Left,
        }
    }
}

/// The saved workspace: its tabs and which one is shown.
pub struct WorkspaceSnapshot {
    pub active_tab: usize,
    pub tabs: Vec<TabSnapshot>,
}

/// The pane in focus of a tab: the left one, or the right one (the left
/// when there is no right).
pub open spec fn focused_pane(t: TabSnapshot) -> Option<PaneSnapshot> {
    match t.active_pane {
        PaneFocus::Left => t.left_pane,
        PaneFocus::Right => match t.right_pane {
            Some(p) => Some(p),
            None => t.left_pane,
        },
    }
}

/// The session in focus of a workspace: the shown session of the focused
/// pane of the shown tab, where each of them exists.
pub open spec fn active_session_of(ws: WorkspaceSnapshot) -> Option<SessionView> {
    if ws.active_tab < ws.tabs@.len() {
        match focused_pane(ws.tabs@[ws.active_tab as int]) {
            Some(p) => if p.active_session < p.sessions@.len() {
                Some(p.sessions@[p.active_session as int]@)
            } else {
                None
            },
            None => None,
        }
    } else {
        None
    }
}

/// The session in focus of a workspace, if any.
pub fn active_session(ws: &WorkspaceSnapshot) -> (r: Option<SessionSnapshot>)
    ensures
        match r {
            Some(s) => active_session_of(*ws) == Some(s@),
            None => active_session_of(*ws) is None,
        },
{
    if ws.active_tab >= ws.tabs.len() {
        return None;
    }
    let tab = &ws.tabs[ws.active_tab];
    let pane = match tab.active_pane {
        PaneFocus::Left => match &tab.left_pane {
            Some(p) => p,
            None => return None,
        },
        PaneFocus::Right => match &tab.right_pane {
            Some(p) => p,
            None => match &tab.left_pane {
                Some(p) => p,
                None => return None,
            },
        },
    };
    if pane.active_session < pane.sessions.len() {
        Some(pane.sessions[pane.active_session].copy())
    } else {
        None
    }
}

} // verus!
