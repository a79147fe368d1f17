//! Cluster status.

use vstd::prelude::*;
use crate::text::same;

verus! {

/// What the cluster does.
#[derive(Debug, Clone, Copy, PartialEq, Eq, Structural)]
pub enum ClusterStatus {
    Running,
    Stopped,
    Starting,
    Paused,
    NotCreated,
    RuntimeNotRunning,
    Unknown,
}

/// The status that a container state stands for.
pub open spec fn status_for(docker_ok: bool, state: Option<Seq<char>>) -> ClusterStatus {
    if !docker_ok {
        ClusterStatus::RuntimeNotRunning
    } else {
        match state {
            None => ClusterStatus::NotCreated,
            Some(s) => if s == "running"@ {
                ClusterStatus::Running
            } else if s == "exited"@ || s == "dead"@ {
                ClusterStatus::Stopped
            } else if s == "restarting"@ {
                ClusterStatus::Starting
            } else if s == "paused"@ {
                ClusterStatus::Paused
            } else {
                ClusterStatus::Unknown
            },
        }
    }
}

/// The status of the cluster, given whether Docker answers and the state of the container.
pub fn get_status(docker_ok: bool, state: &Option<String>) -> (r: ClusterStatus)
    ensures
        r == status_for(docker_ok, crate::text::opt_view(*state)),
{
    if !docker_ok {
        return ClusterStatus::RuntimeNotRunning;
    }
    match state {
        None => ClusterStatus::NotCreated,
        Some(s) => {
            let t = s.as_str();
            if same(t, "running") {
                ClusterStatus::Running
            } else if same(t, "exited") || same(t, "dead") {
                ClusterStatus::Stopped
            } else if same(t, "restarting") {
                ClusterStatus::Starting
            } else if same(t, "paused") {
                ClusterStatus::Paused
            } else {
                ClusterStatus::Unknown
            }
        },
    }
}

/// The name of a status.
pub open spec fn status_name(s: ClusterStatus) -> Seq<char> {
    match s {
        ClusterStatus::Running => "Running"@,
        ClusterStatus::Stopped => "Stopped"@,
        ClusterStatus::Starting => "Starting"@,
        ClusterStatus::Paused => "Paused"@,
        ClusterStatus::NotCreated => "Not Created"@,
        ClusterStatus::RuntimeNotRunning => "Runtime Not Running"@,
        ClusterStatus::Unknown => "Unknown"@,
    }
}

impl ClusterStatus {
    /// The name of the status.
    pub fn as_str(&self) -> (r: &'static str)
        ensures
            r@ == status_name(*self),
    {
        match self {
            ClusterStatus::Running => "Running",
            ClusterStatus::Stopped => "Stopped",
            ClusterStatus::Starting => "Starting",
            ClusterStatus::Paused => "Paused",
            ClusterStatus::NotCreated => "Not Created",
            ClusterStatus::RuntimeNotRunning => "Runtime Not Running",
            ClusterStatus::Unknown => "Unknown",
        }
    }
}

/// A cluster runs exactly where Docker answers and says so of its container; without an answer its
/// runtime is what does not run, and without a container there is none.
pub proof fn law_status_tells_the_state(docker_ok: bool, state: Option<Seq<char>>)
    ensures
        status_for(docker_ok, state) == ClusterStatus::Running <==> docker_ok && state == Some(
            "running"@,
        ),
        status_for(docker_ok, state) == ClusterStatus::RuntimeNotRunning <==> !docker_ok,
        status_for(docker_ok, state) == ClusterStatus::NotCreated <==> docker_ok && state is None,
        status_for(docker_ok, state) == ClusterStatus::Stopped ==> state == Some("exited"@) || state
            == Some("dead"@),
        docker_ok && (state == Some("exited"@) || state == Some("dead"@)) ==> status_for(
            docker_ok,
            state,
        ) == ClusterStatus::Stopped,
        docker_ok && state == Some("restarting"@) ==> status_for(docker_ok, state)
            == ClusterStatus::Starting,
        docker_ok && state == Some("paused"@) ==> status_for(docker_ok, state)
            == ClusterStatus::Paused,
{
    reveal_strlit("running");
    reveal_strlit("exited");
    reveal_strlit("dead");
    reveal_strlit("restarting");
    reveal_strlit("paused");
    assert("running"@.len() == 7 && "exited"@.len() == 6 && "dead"@.len() == 4);
    assert("restarting"@.len() == 10);
    assert("paused"@[0] == 'p' && "exited"@[0] == 'e');
}

/// Different statuses have different names.
pub proof fn law_status_names_differ(a: ClusterStatus, b: ClusterStatus)
    ensures
        status_name(a) == status_name(b) ==> a == b,
{
    reveal_strlit("Running");
    reveal_strlit("Stopped");
    reveal_strlit("Starting");
    reveal_strlit("Paused");
    reveal_strlit("Not Created");
    reveal_strlit("Runtime Not Running");
    reveal_strlit("Unknown");
    assert("Running"@.len() == 7 && "Running"@[0] == 'R');
    assert("Stopped"@.len() == 7 && "Stopped"@[0] == 'S');
    assert("Unknown"@.len() == 7 && "Unknown"@[0] == 'U');
    assert("Starting"@.len() == 8 && "Paused"@.len() == 6);
    assert("Not Created"@.len() == 11 && "Runtime Not Running"@.len() == 19);
}

/// Each status is called by its name.
pub proof fn law_statuses_have_their_names(s: ClusterStatus)
    ensures
        s == ClusterStatus::Running ==> status_name(s) == "Running"@,
        s == ClusterStatus::Stopped ==> status_name(s) == "Stopped"@,
        s == ClusterStatus::Starting ==> status_name(s) == "Starting"@,
        s == ClusterStatus::Paused ==> status_name(s) == "Paused"@,
        s == ClusterStatus::NotCreated ==> status_name(s) == "Not Created"@,
        s == ClusterStatus::RuntimeNotRunning ==> status_name(s) == "Runtime Not Running"@,
        s == ClusterStatus::Unknown ==> status_name(s) == "Unknown"@,
{
}

} // verus!
