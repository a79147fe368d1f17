//! Everything that belongs to a cluster: the cluster itself, its router and the hosts file.

use vstd::prelude::*;
use crate::cluster::k3s::status::ClusterStatus;
use crate::machine::{
    done, fail, go, good, no_lines, reason, silent, tells_success, Event, Next, NextView, Step, StepView,
};
use crate::output::{error, info, line_views, say, success, warning, LineView, OutputLine, OutputType};
use crate::text::{join, joined, views};

verus! {

/// The settings on which the steps depend.
#[derive(Debug, Clone, Copy)]
pub struct ServiceSettings {
    pub deploy_traefik: bool,
    pub auto_update_hosts: bool,
    pub has_hooks: bool,
}

/// An action on the way to a cluster with its services.
#[derive(Debug, Clone, Copy, PartialEq, Eq, Structural)]
pub enum ServiceAction {
    /// Reach Docker.
    Connect,
    /// Start the cluster.
    StartCluster,
    /// Deploy the router.
    DeployTraefik,
    /// Bring the hosts file up to date.
    UpdateHosts,
    /// Run the hooks for deployed services.
    RunHooks,
}

/// The end of a start.
pub open spec fn services_end() -> StepView<ServiceAction, ()> {
    (silent().push(success("Cluster started successfully!"@)), NextView::Done(()))
}

/// What follows the hosts file.
pub open spec fn after_hosts(s: ServiceSettings) -> StepView<ServiceAction, ()> {
    if s.has_hooks {
        (silent(), NextView::Go(ServiceAction::RunHooks))
    } else {
        services_end()
    }
}

/// What follows the router.
pub open spec fn after_traefik(s: ServiceSettings) -> StepView<ServiceAction, ()> {
    if s.auto_update_hosts {
        (silent(), NextView::Go(ServiceAction::UpdateHosts))
    } else {
        after_hosts(s)
    }
}

/// The complaint about a hosts file that could not be updated.
pub open spec fn hosts_trouble(e: Seq<char>) -> LineView {
    warning("Could not update /etc/hosts (use 'H' key for manual update): "@ + e)
}

/// The step that follows an action.
pub open spec fn services_next(a: ServiceAction, ev: Event, s: ServiceSettings) -> StepView<
    ServiceAction,
    (),
> {
    match a {
        ServiceAction::Connect => if good(ev) {
            (silent(), NextView::Go(ServiceAction::StartCluster))
        } else {
            (
                silent().push(error("Failed to initialize cluster manager"@)),
                NextView::Done(()),
            )
        },
        ServiceAction::StartCluster => if !good(ev) {
            (silent(), NextView::Fail(reason(ev)))
        } else if s.deploy_traefik {
            (silent(), NextView::Go(ServiceAction::DeployTraefik))
        } else {
            after_traefik(s)
        },
        ServiceAction::DeployTraefik => if good(ev) {
            after_traefik(s)
        } else {
            (silent(), NextView::Fail(reason(ev)))
        },
        ServiceAction::UpdateHosts => if good(ev) {
            after_hosts(s)
        } else {
            (
                silent().push(hosts_trouble(reason(ev))) + after_hosts(s).0,
                after_hosts(s).1,
            )
        },
        ServiceAction::RunHooks => if good(ev) {
            services_end()
        } else {
            (silent(), NextView::Fail(reason(ev)))
        },
    }
}

/// How many more actions a start takes at most, this one counted.
pub open spec fn services_distance(a: ServiceAction) -> nat {
    match a {
        ServiceAction::Connect => 5,
        ServiceAction::StartCluster => 4,
        ServiceAction::DeployTraefik => 3,
        ServiceAction::UpdateHosts => 2,
        ServiceAction::RunHooks => 1,
    }
}

/// A start ends, and a hosts file that cannot be updated does not fail it.
pub proof fn law_hosts_trouble_is_not_fatal(a: ServiceAction, ev: Event, s: ServiceSettings)
    ensures
        services_next(a, ev, s).1 matches NextView::Go(b) ==> services_distance(b)
            < services_distance(a),
        a is UpdateHosts ==> services_next(a, ev, s).1 == after_hosts(s).1,
        services_next(a, ev, s).1 is Fail ==> !good(ev) && a !is UpdateHosts && a !is Connect,
{
}

/// A start with services takes what is asked for, in order, and nothing else: the router, the hosts
/// file and the hooks each where they are wanted and what comes before them is done. Success is told
/// only at the end of a start that started the cluster.
pub proof fn law_services_follow_the_settings(a: ServiceAction, ev: Event, s: ServiceSettings)
    ensures
        services_next(a, ev, s).1 matches NextView::Go(b) ==> match b {
            ServiceAction::Connect => false,
            ServiceAction::StartCluster => a is Connect && good(ev),
            ServiceAction::DeployTraefik => a is StartCluster && good(ev) && s.deploy_traefik,
            ServiceAction::UpdateHosts => good(ev) && s.auto_update_hosts && (a is DeployTraefik || (
            a is StartCluster && !s.deploy_traefik)),
            ServiceAction::RunHooks => s.has_hooks && (a is UpdateHosts || (!s.auto_update_hosts
                && good(ev) && (a is DeployTraefik || (a is StartCluster && !s.deploy_traefik)))),
        },
        services_next(a, ev, s).1 is Fail <==> !good(ev) && (a is StartCluster || a is DeployTraefik
            || a is RunHooks),
        services_next(a, ev, s).1 matches NextView::Fail(e) ==> e == reason(ev),
        tells_success(services_next(a, ev, s).0) <==> services_next(a, ev, s).1 is Done && !(a
            is Connect),
        services_next(a, ev, s).1 is Done && !(a is Connect) ==> (a is RunHooks && good(ev)) || (
        !s.has_hooks && (a is UpdateHosts || !s.auto_update_hosts)),
{
    let lines = services_next(a, ev, s).0;
    if services_next(a, ev, s).1 is Done && !(a is Connect) {
        assert(lines[lines.len() - 1].0 == OutputType::Success);
    }
}

fn services_finished() -> (r: Step<ServiceAction, ()>)
    ensures
        r@ == services_end(),
{
    let mut lines = no_lines();
    say(&mut lines, OutputLine::success("Cluster started successfully!"));
    Step { lines, next: Next::Done(()) }
}

fn hosts_done(s: &ServiceSettings) -> (r: Step<ServiceAction, ()>)
    ensures
        r@ == after_hosts(*s),
{
    if s.has_hooks {
        go(ServiceAction::RunHooks)
    } else {
        services_finished()
    }
}

fn traefik_done(s: &ServiceSettings) -> (r: Step<ServiceAction, ()>)
    ensures
        r@ == after_traefik(*s),
{
    if s.auto_update_hosts {
        go(ServiceAction::UpdateHosts)
    } else {
        hosts_done(s)
    }
}

/// The step of a start that follows an action.
pub fn start(a: ServiceAction, ev: &Event, s: &ServiceSettings) -> (r: Step<ServiceAction, ()>)
    ensures
        r@ == services_next(a, *ev, *s),
{
    match a {
        ServiceAction::Connect => if ev.is_good() {
            go(ServiceAction::StartCluster)
        } else {
            let mut lines = no_lines();
            say(&mut lines, OutputLine::error("Failed to initialize cluster manager"));
            Step { lines, next: Next::Done(()) }
        },
        ServiceAction::StartCluster => if !ev.is_good() {
            fail(ev)
        } else if s.deploy_traefik {
            go(ServiceAction::DeployTraefik)
        } else {
            traefik_done(s)
        },
        ServiceAction::DeployTraefik => if ev.is_good() {
            traefik_done(s)
        } else {
            fail(ev)
        },
        ServiceAction::UpdateHosts => if ev.is_good() {
            hosts_done(s)
        } else {
            let mut t =
                "Could not update /etc/hosts (use 'H' key for manual update): ".to_owned();
            t.append(ev.why().as_str());
            let mut lines = no_lines();
            say(&mut lines, OutputLine::warning(t.as_str()));
            if s.has_hooks {
                assert(silent().push(hosts_trouble(reason(*ev))) + silent() =~= silent().push(
                    hosts_trouble(reason(*ev)),
                ));
                Step { lines, next: Next::Go(ServiceAction::RunHooks) }
            } else {
                say(&mut lines, OutputLine::success("Cluster started successfully!"));
                assert(silent().push(hosts_trouble(reason(*ev))) + services_end().0
                    =~= silent().push(hosts_trouble(reason(*ev))).push(
                    success("Cluster started successfully!"@),
                ));
                Step { lines, next: Next::Done(()) }
            }
        },
        ServiceAction::RunHooks => if ev.is_good() {
            services_finished()
        } else {
            fail(ev)
        },
    }
}

/// An action on the way to a restarted cluster.
#[derive(Debug, Clone, Copy, PartialEq, Eq, Structural)]
pub enum RestartAction {
    Stop,
    /// Pause for so many seconds.
    Pause(u64),
    Start,
}

/// The step of a restart that follows an action: a cluster that could not be stopped is not
/// started.
pub open spec fn restart_next(a: RestartAction, ev: Event) -> StepView<RestartAction, ()> {
    match a {
        RestartAction::Stop => if good(ev) {
            (silent(), NextView::<RestartAction, ()>::Go(RestartAction::Pause(2)))
        } else {
            (silent(), NextView::Fail(reason(ev)))
        },
        RestartAction::Pause(_) => (silent(), NextView::Go(RestartAction::Start)),
        RestartAction::Start => if good(ev) {
            (silent(), NextView::Done(()))
        } else {
            (silent(), NextView::Fail(reason(ev)))
        },
    }
}

/// A restart stops the cluster, pauses and starts it: it starts only what was stopped, and it ends
/// well only where the start did; what goes wrong before that or then fails it.
pub proof fn law_restart_stops_and_starts(a: RestartAction, ev: Event)
    ensures
        restart_next(a, ev).1 matches NextView::Go(b) ==> match b {
            RestartAction::Stop => false,
            RestartAction::Pause(secs) => a is Stop && good(ev) && secs > 0,
            RestartAction::Start => a is Pause,
        },
        restart_next(a, ev).1 is Done <==> a is Start && good(ev),
        restart_next(a, ev).1 is Fail <==> !(a is Pause) && !good(ev),
        restart_next(a, ev).1 matches NextView::Fail(e) ==> e == reason(ev),
        restart_next(a, ev).0.len() == 0,
{
}

/// The step of a restart that follows an action: a cluster that could not be stopped is not
/// started.
pub fn restart(a: RestartAction, ev: &Event) -> (r: Step<RestartAction, ()>)
    ensures
        r@ == restart_next(a, *ev),
{
    match a {
        RestartAction::Stop => if ev.is_good() {
            go(RestartAction::Pause(2))
        } else {
            fail(ev)
        },
        RestartAction::Pause(_) => go(RestartAction::Start),
        RestartAction::Start => if ev.is_good() {
            done(())
        } else {
            fail(ev)
        },
    }
}

/// An action on the way to a deleted cluster.
#[derive(Debug, Clone, Copy, PartialEq, Eq, Structural)]
pub enum RemoveAction {
    UninstallTraefik,
    DeleteCluster,
}

/// The step of a deletion that follows an action. Without a connection to Docker there is no
/// cluster to delete.
pub open spec fn remove_next(a: RemoveAction, ev: Event, connected: bool) -> StepView<
    RemoveAction,
    (),
> {
    if !good(ev) {
        (silent(), NextView::<RemoveAction, ()>::Fail(reason(ev)))
    } else if a == RemoveAction::UninstallTraefik && connected {
        (silent(), NextView::Go(RemoveAction::DeleteCluster))
    } else {
        (silent(), NextView::Done(()))
    }
}

/// Where Docker is reached, a deletion ends well only once the cluster was deleted, which follows the
/// removal of the router; trouble fails it.
pub proof fn law_removal_deletes_the_cluster(a: RemoveAction, ev: Event, connected: bool)
    ensures
        remove_next(a, ev, connected).1 matches NextView::Go(b) ==> b is DeleteCluster && a
            is UninstallTraefik && good(ev) && connected,
        remove_next(a, ev, connected).1 is Done && connected ==> a is DeleteCluster && good(ev),
        remove_next(a, ev, connected).1 is Fail <==> !good(ev),
        remove_next(a, ev, connected).1 matches NextView::Fail(e) ==> e == reason(ev),
{
}

/// The step of a deletion that follows an action. Without a connection to Docker there is no
/// cluster to delete.
pub fn delete(a: RemoveAction, ev: &Event, connected: bool) -> (r: Step<RemoveAction, ()>)
    ensures
        r@ == remove_next(a, *ev, connected),
{
    if !ev.is_good() {
        fail(ev)
    } else if connected && a == RemoveAction::UninstallTraefik {
        go(RemoveAction::DeleteCluster)
    } else {
        done(())
    }
}

/// The status of the cluster: without a connection to Docker its runtime does not run.
pub fn get_status(cluster: Option<ClusterStatus>) -> (r: ClusterStatus)
    ensures
        r == match cluster {
            Some(s) => s,
            None => ClusterStatus::RuntimeNotRunning,
        },
{
    match cluster {
        Some(s) => s,
        None => ClusterStatus::RuntimeNotRunning,
    }
}

/// What is said of this machine.
pub open spec fn platform_lines(arch: Seq<char>, missing: Seq<Seq<char>>) -> Seq<LineView> {
    let head = silent().push(info("=== Platform ==="@)).push(info("OS: Linux"@)).push(
        info("Arch: "@ + arch),
    );
    if missing.len() == 0 {
        head
    } else {
        head.push(warning("Missing: "@ + joined(missing, ", "@)))
    }
}

/// What is said of this machine, given its architecture and the programs that it lacks.
pub fn describe_platform(arch: &str, missing: &Vec<String>) -> (r: Vec<OutputLine>)
    ensures
        line_views(r@) == platform_lines(arch@, views(missing@)),
{
    let mut lines = no_lines();
    say(&mut lines, OutputLine::info("=== Platform ==="));
    say(&mut lines, OutputLine::info("OS: Linux"));
    let mut t = "Arch: ".to_owned();
    t.append(arch);
    say(&mut lines, OutputLine::info(t.as_str()));
    assert(views(missing@).len() == missing@.len());
    if missing.len() > 0 {
        let mut m = "Missing: ".to_owned();
        m.append(join(missing, ", ").as_str());
        say(&mut lines, OutputLine::warning(m.as_str()));
    }
    lines
}

/// What is said of this machine names its architecture, and all that it lacks where it lacks anything.
pub proof fn law_platform_is_told(arch: Seq<char>, missing: Seq<Seq<char>>)
    ensures
        platform_lines(arch, missing).contains(info("Arch: "@ + arch)),
        (exists|i: int|
            0 <= i < platform_lines(arch, missing).len() && (#[trigger] platform_lines(
                arch,
                missing,
            )[i]).0 == OutputType::Warning) <==> missing.len() > 0,
        missing.len() > 0 ==> platform_lines(arch, missing).last() == warning(
            "Missing: "@ + joined(missing, ", "@),
        ),
{
    let l = platform_lines(arch, missing);
    assert(l[2] == info("Arch: "@ + arch));
    if missing.len() > 0 {
        assert(l[3].0 == OutputType::Warning);
    }
}

} // verus!
