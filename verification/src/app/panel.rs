//! The detail panel of the selected pod, and the shell in it.

use vstd::prelude::*;
use crate::app::events::AppMode;
use crate::app::highlight::PodRef;
use crate::text::same;

verus! {

/// A tab of the detail panel.
#[derive(Debug, Clone, Copy, PartialEq, Eq, Structural)]
pub enum DetailTab {
    Logs,
    Describe,
    Timeline,
    Volumes,
    Shell,
}

/// The detail panel and the shell session.
#[derive(Debug)]
pub struct Panel {
    /// The pod and the tab, where the panel is open.
    pub shown: Option<(PodRef, DetailTab)>,
    /// The pod of the shell session.
    pub session: Option<PodRef>,
    pub connected: bool,
}

/// What to do to the panel, in order.
#[derive(Debug, Clone, Copy, PartialEq, Eq, Structural)]
pub enum PanelEffect {
    /// Show the pod and tab of the state, with the known volumes.
    Open,
    /// Show another tab of the same pod.
    SwitchTab,
    /// Load what the tab shows.
    LoadTab,
    Close,
    CloseSession,
}

/// What loading a tab means.
#[derive(Debug, Clone, Copy, PartialEq, Eq, Structural)]
pub enum TabLoad {
    /// There is no connection: nothing is loaded.
    Nothing,
    Logs,
    Describe,
    Timeline,
    Volumes,
    Shell,
}

/// What activating the shell tab means.
#[derive(Debug, Clone, Copy, PartialEq, Eq, Structural)]
pub enum ShellStart {
    /// The session is there and visible.
    Ready,
    /// The session is there; its view has to be made.
    ShowView,
    /// Start a session; close the old one first where `close_old` is set.
    Spawn { close_old: bool },
    /// There is no connection; close the old session first where `close_old` is set.
    NotConnected { close_old: bool },
}

/// Whether the two are the same pod.
pub open spec fn same_pod(a: PodRef, b: PodRef) -> bool {
    a.name@ == b.name@ && a.namespace@ == b.namespace@
}

fn pods_equal(a: &PodRef, b: &PodRef) -> (r: bool)
    ensures
        r == same_pod(*a, *b),
{
    same(a.name.as_str(), b.name.as_str()) && same(a.namespace.as_str(), b.namespace.as_str())
}

/// Whether the panel followed the selection: it opened on the first pod, moved with it, or closed
/// where none was left.
pub open spec fn synced(
    old: Panel,
    selected: Option<PodRef>,
    mode: AppMode,
    new: Panel,
    fx: Seq<PanelEffect>,
    next: AppMode,
) -> bool {
    &&& new.connected == old.connected
    &&& match selected {
        Some(p) => {
            &&& next == mode
            &&& match old.shown {
                None => {
                    &&& fx =~= seq![PanelEffect::Open, PanelEffect::LoadTab]
                    &&& new.shown == Some((p, DetailTab::Logs))
                    &&& new.session == old.session
                },
                Some(s) => if s.0.name@ != p.name@ {
                    &&& fx =~= seq![PanelEffect::Open, PanelEffect::LoadTab]
                    &&& new.shown == Some((p, s.1))
                    &&& new.session == old.session
                } else {
                    fx.len() == 0 && new == old
                },
            }
        },
        None => if old.shown is Some {
            &&& new.shown is None
            &&& new.session is None
            &&& next == if mode == AppMode::Shell {
                AppMode::Normal
            } else {
                mode
            }
            &&& fx =~= if old.session is Some {
                seq![PanelEffect::Close, PanelEffect::CloseSession]
            } else {
                seq![PanelEffect::Close]
            }
        } else {
            fx.len() == 0 && next == mode && new == old
        },
    }
}

/// Whether the panel was opened on a tab, or turned to the tab where it showed the selected pod
/// already.
pub open spec fn turned(
    old: Panel,
    tab: DetailTab,
    selected: Option<PodRef>,
    new: Panel,
    fx: Seq<PanelEffect>,
) -> bool {
    &&& new.session == old.session
    &&& new.connected == old.connected
    &&& match selected {
        None => fx.len() == 0 && new.shown == old.shown,
        Some(p) => if old.shown matches Some(s) && s.0.name@ == p.name@ {
            &&& fx =~= seq![PanelEffect::SwitchTab, PanelEffect::LoadTab]
            &&& new.shown matches Some(n)
            &&& n.0.name@ == (old.shown->0).0.name@
            &&& n.0.namespace@ == (old.shown->0).0.namespace@
            &&& n.1 == tab
        } else {
            &&& fx =~= seq![PanelEffect::Open, PanelEffect::LoadTab]
            &&& new.shown == Some((p, tab))
        },
    }
}

/// What loading the active tab means.
pub open spec fn tab_load(p: Panel) -> TabLoad {
    match p.shown {
        None => TabLoad::Nothing,
        Some(s) => match s.1 {
            DetailTab::Volumes => TabLoad::Volumes,
            DetailTab::Shell => TabLoad::Shell,
            DetailTab::Logs => if p.connected {
                TabLoad::Logs
            } else {
                TabLoad::Nothing
            },
            DetailTab::Describe => if p.connected {
                TabLoad::Describe
            } else {
                TabLoad::Nothing
            },
            DetailTab::Timeline => if p.connected {
                TabLoad::Timeline
            } else {
                TabLoad::Nothing
            },
        },
    }
}

/// Whether the panel turned to the shell of the shown pod.
pub open spec fn shell_activated(old: Panel, has_view: bool, new: Panel, r: ShellStart) -> bool {
    &&& new.shown == old.shown
    &&& new.connected == old.connected
    &&& if old.session matches Some(s) && same_pod(s, (old.shown->0).0) {
        &&& new.session == old.session
        &&& r == if has_view {
            ShellStart::Ready
        } else {
            ShellStart::ShowView
        }
    } else {
        &&& new.session is None
        &&& r == if old.connected {
            ShellStart::Spawn { close_old: old.session is Some }
        } else {
            ShellStart::NotConnected { close_old: old.session is Some }
        }
    }
}

impl Panel {
    /// A closed panel.
    pub fn new(connected: bool) -> (r: Self)
        ensures
            r.shown is None,
            r.session is None,
            r.connected == connected,
    {
        Panel { shown: None, session: None, connected }
    }

    /// Follows the selection: opens on the first pod, moves with it, closes where none is left.
    /// Gives the effects and the mode that follows `mode`.
    pub fn ensure_detail_panel_synced(&mut self, selected: Option<PodRef>, mode: AppMode) -> (r: (
        Vec<PanelEffect>,
        AppMode,
    ))
        ensures
            synced(*old(self), selected, mode, *final(self), r.0@, r.1),
    {
        let mut v: Vec<PanelEffect> = Vec::new();
        let mut next = mode;
        match selected {
            Some(p) => {
                let tab = match &self.shown {
                    None => Some(DetailTab::Logs),
                    Some(s) => if !same(s.0.name.as_str(), p.name.as_str()) {
                        Some(s.1)
                    } else {
                        None
                    },
                };
                if let Some(t) = tab {
                    self.shown = Some((p, t));
                    v.push(PanelEffect::Open);
                    v.push(PanelEffect::LoadTab);
                }
            },
            None => {
                if self.shown.is_some() {
                    self.shown = None;
                    v.push(PanelEffect::Close);
                    if self.session.is_some() {
                        self.session = None;
                        v.push(PanelEffect::CloseSession);
                    }
                    if mode == AppMode::Shell {
                        next = AppMode::Normal;
                    }
                }
            },
        }
        (v, next)
    }

    /// Opens the panel on a tab, or turns to the tab where it shows the selected pod already.
    pub fn open_or_switch_detail_tab(&mut self, tab: DetailTab, selected: Option<PodRef>) -> (r: Vec<
        PanelEffect,
    >)
        ensures
            turned(*old(self), tab, selected, *final(self), r@),
    {
        let mut v: Vec<PanelEffect> = Vec::new();
        if let Some(p) = selected {
            let kept = match &self.shown {
                Some(s) => if same(s.0.name.as_str(), p.name.as_str()) {
                    Some(PodRef { name: s.0.name.clone(), namespace: s.0.namespace.clone() })
                } else {
                    None
                },
                None => None,
            };
            match kept {
                Some(k) => {
                    self.shown = Some((k, tab));
                    v.push(PanelEffect::SwitchTab);
                },
                None => {
                    self.shown = Some((p, tab));
                    v.push(PanelEffect::Open);
                },
            }
            v.push(PanelEffect::LoadTab);
        }
        v
    }

    /// What loading the active tab means: everything but volumes and shell needs a connection.
    pub fn load_active_tab(&self) -> (r: TabLoad)
        ensures
            r == tab_load(*self),
    {
        match &self.shown {
            None => TabLoad::Nothing,
            Some(s) => match s.1 {
                DetailTab::Volumes => TabLoad::Volumes,
                DetailTab::Shell => TabLoad::Shell,
                DetailTab::Logs => if self.connected {
                    TabLoad::Logs
                } else {
                    TabLoad::Nothing
                },
                DetailTab::Describe => if self.connected {
                    TabLoad::Describe
                } else {
                    TabLoad::Nothing
                },
                DetailTab::Timeline => if self.connected {
                    TabLoad::Timeline
                } else {
                    TabLoad::Nothing
                },
            },
        }
    }

    /// Turns to the shell of the shown pod: an existing session of that pod is used again, that
    /// of another pod is closed.
    pub fn activate_shell_tab(&mut self, has_view: bool) -> (r: ShellStart)
        requires
            old(self).shown is Some,
        ensures
            shell_activated(*old(self), has_view, *final(self), r),
    {
        let mut close_old = false;
        let mut reuse = false;
        if let Some(shown) = &self.shown {
            if let Some(s) = &self.session {
                if pods_equal(s, &shown.0) {
                    reuse = true;
                } else {
                    close_old = true;
                }
            }
        }
        if reuse {
            if has_view {
                ShellStart::Ready
            } else {
                ShellStart::ShowView
            }
        } else {
            self.session = None;
            if self.connected {
                ShellStart::Spawn { close_old }
            } else {
                ShellStart::NotConnected { close_old }
            }
        }
    }
}

/// Whether the shell has to be told a new size.
pub fn shell_resized(rows: u16, cols: u16, known: (u16, u16)) -> (r: bool)
    ensures
        r == (rows > 0 && cols > 0 && (rows, cols) != known),
{
    rows > 0 && cols > 0 && !(rows == known.0 && cols == known.1)
}

// ---------------------------------------------------------------------------
// Laws
// ---------------------------------------------------------------------------

/// The panel shows the selected pod, and nothing where none is selected; what is shown anew is loaded,
/// the tab is kept, and no session outlives the panel.
pub proof fn law_panel_shows_the_selection(
    old: Panel,
    selected: Option<PodRef>,
    mode: AppMode,
    new: Panel,
    fx: Seq<PanelEffect>,
    next: AppMode,
)
    requires
        synced(old, selected, mode, new, fx, next),
    ensures
        new.shown is Some <==> selected is Some,
        selected is Some ==> (new.shown->0).0.name@ == selected->0.name@,
        selected is Some && old.shown is Some ==> (new.shown->0).1 == (old.shown->0).1,
        selected is Some && old.shown is None ==> (new.shown->0).1 == DetailTab::Logs,
        fx.contains(PanelEffect::Open) <==> selected is Some && (old.shown is None || (
        old.shown->0).0.name@ != selected->0.name@),
        fx.contains(PanelEffect::LoadTab) <==> fx.contains(PanelEffect::Open),
        fx.contains(PanelEffect::Close) <==> selected is None && old.shown is Some,
        fx.contains(PanelEffect::CloseSession) <==> fx.contains(PanelEffect::Close) && old.session
            is Some,
        fx.contains(PanelEffect::Close) ==> new.session is None && next != AppMode::Shell,
        !fx.contains(PanelEffect::Close) ==> new.session == old.session && next == mode,
        mode != AppMode::Shell ==> next == mode,
        new.connected == old.connected,
{
    if fx.len() > 0 {
        assert(fx.contains(fx[0]));
    }
    if fx.len() > 1 {
        assert(fx.contains(fx[1]));
    }
}

/// The tab that was asked for is shown and loaded, of the pod that is selected.
pub proof fn law_asked_tab_is_shown(
    old: Panel,
    tab: DetailTab,
    selected: Option<PodRef>,
    new: Panel,
    fx: Seq<PanelEffect>,
)
    requires
        turned(old, tab, selected, new, fx),
    ensures
        selected is Some ==> new.shown is Some && (new.shown->0).0.name@ == selected->0.name@ && (
        new.shown->0).1 == tab && fx.last() == PanelEffect::LoadTab && fx.len() == 2,
        selected is None ==> new.shown == old.shown && fx.len() == 0,
        fx.contains(PanelEffect::Open) <==> selected is Some && !(old.shown is Some && (
        old.shown->0).0.name@ == selected->0.name@),
        new.session == old.session,
{
    if fx.len() > 0 {
        assert(fx.contains(fx[0]));
    }
}

/// A tab loads what it shows; without a connection only volumes and the shell do.
pub proof fn law_tabs_load_what_they_show(p: Panel, tab: DetailTab)
    requires
        p.shown is Some,
        (p.shown->0).1 == tab,
    ensures
        tab_load(p) == TabLoad::Logs <==> tab == DetailTab::Logs && p.connected,
        tab_load(p) == TabLoad::Describe <==> tab == DetailTab::Describe && p.connected,
        tab_load(p) == TabLoad::Timeline <==> tab == DetailTab::Timeline && p.connected,
        tab_load(p) == TabLoad::Volumes <==> tab == DetailTab::Volumes,
        tab_load(p) == TabLoad::Shell <==> tab == DetailTab::Shell,
{
}

/// A shell is never shown on the session of another pod, and no session is left behind: one of another
/// pod is closed.
pub proof fn law_sessions_belong_to_the_shown_pod(old: Panel, has_view: bool, new: Panel, r: ShellStart)
    requires
        old.shown is Some,
        shell_activated(old, has_view, new, r),
    ensures
        new.session matches Some(s) ==> s.name@ == (old.shown->0).0.name@ && s.namespace@ == (
        old.shown->0).0.namespace@,
        r == ShellStart::Ready <==> new.session is Some && has_view,
        r == ShellStart::ShowView <==> new.session is Some && !has_view,
        r is Spawn ==> old.connected,
        r is NotConnected ==> !old.connected,
        new.session is None && old.session is Some ==> r == (ShellStart::Spawn {
            close_old: true,
        }) || r == (ShellStart::NotConnected { close_old: true }),
        old.session is None ==> r == (ShellStart::Spawn { close_old: false }) || r == (
        ShellStart::NotConnected { close_old: false }),
        old.session is Some && old.session->0.name@ == (old.shown->0).0.name@
            && old.session->0.namespace@ == (old.shown->0).0.namespace@ ==> new.session
            == old.session,
{
}

} // verus!
