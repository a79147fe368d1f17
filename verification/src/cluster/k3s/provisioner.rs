//! Pointing the provisioner of local volumes at a directory that pods can reach.

use vstd::prelude::*;
use crate::machine::{go, good, no_lines, reason, silent, Event, Next, NextView, Step, StepView};
use crate::number::{decimal, u64_text};
use crate::output::{info, say, warning, LineView, OutputLine};
use crate::text::{contains, has_sub, opt_view};

verus! {

/// The configuration map of the provisioner and its namespace.
pub const CONFIG_MAP: &'static str = "local-path-config";

/// The namespace of the provisioner.
pub const CONFIG_NAMESPACE: &'static str = "kube-system";

/// The annotation by which the addon controller would revert a change.
pub const APPLIED_ANNOTATION: &'static str = "objectset.rio.cattle.io/applied";

/// The key of the provisioner's configuration.
pub const CONFIG_KEY: &'static str = "config.json";

/// The deployment of the provisioner.
pub const PROVISIONER: &'static str = "local-path-provisioner";

/// How often the change is tried.
pub const PATCH_ATTEMPTS: u32 = 3;

/// How long the rollout is waited for, in seconds.
pub const ROLLOUT_SECS: u64 = 30;

/// The provisioner's configuration for a directory.
pub fn provisioner_config(path: &str) -> (r: String)
    ensures
        r@ == "{\"nodePathMap\":[{\"node\":\"DEFAULT_PATH_FOR_NON_LISTED_NODES\",\"paths\":[\""@
            + path@ + "\"]}]}"@,
{
    let mut s =
        "{\"nodePathMap\":[{\"node\":\"DEFAULT_PATH_FOR_NON_LISTED_NODES\",\"paths\":[\"".to_owned();
    s.append(path);
    s.append("\"]}]}");
    s
}

/// An action on the way to a configured provisioner.
#[derive(Debug, Clone, Copy, PartialEq, Eq, Structural)]
pub enum ProvisionerAction {
    /// Remove the annotation.
    Detach,
    /// Change the configuration: the attempt counts from one.
    Patch(u32),
    /// Read the configuration back.
    ReadBack,
    /// Change the configuration once more.
    PatchAgain,
    /// Restart the provisioner.
    Restart,
    /// Wait for its rollout.
    AwaitRollout,
}

/// The first action.
pub fn begin_provisioner() -> (r: ProvisionerAction)
    ensures
        r == ProvisionerAction::Detach,
{
    ProvisionerAction::Detach
}

/// How many seconds pass before an action.
pub fn pause_before(a: ProvisionerAction) -> (r: u64)
    ensures
        r == match a {
            ProvisionerAction::Patch(n) => if n > 1 {
                1u64
            } else {
                0u64
            },
            ProvisionerAction::PatchAgain => 2u64,
            _ => 0u64,
        },
{
    match a {
        ProvisionerAction::Patch(n) => if n > 1 {
            1
        } else {
            0
        },
        ProvisionerAction::PatchAgain => 2,
        _ => 0,
    }
}

/// Whether an action is one of the attempts that are made.
pub open spec fn action_valid(a: ProvisionerAction) -> bool {
    a matches ProvisionerAction::Patch(n) ==> 1 <= n <= PATCH_ATTEMPTS
}

/// The last line.
pub open spec fn configured_line(path: Seq<char>) -> LineView {
    info("Configured local-path-provisioner to use "@ + path)
}

/// The text, or an empty one.
pub open spec fn text_or_nothing(o: Option<Seq<char>>) -> Seq<char> {
    match o {
        Some(s) => s,
        None => Seq::empty(),
    }
}

/// The step that follows an action; `found` is the configuration that was read back.
pub open spec fn provisioner_next(
    a: ProvisionerAction,
    ev: Event,
    found: Option<Seq<char>>,
    path: Seq<char>,
) -> StepView<ProvisionerAction, ()> {
    match a {
        ProvisionerAction::Detach => (silent(), NextView::Go(ProvisionerAction::Patch(1))),
        ProvisionerAction::Patch(n) => if good(ev) {
            (silent(), NextView::Go(ProvisionerAction::ReadBack))
        } else if n < PATCH_ATTEMPTS {
            (
                silent().push(
                    info(
                        "ConfigMap patch attempt "@ + decimal(n as nat) + " failed, retrying..."@,
                    ),
                ),
                NextView::Go(ProvisionerAction::Patch((n + 1) as u32)),
            )
        } else {
            (
                silent().push(
                    warning(
                        "Failed to configure local-path-provisioner after 3 attempts: "@ + reason(
                            ev,
                        ) + ". PVCs may not work correctly."@,
                    ),
                ),
                NextView::Done(()),
            )
        },
        ProvisionerAction::ReadBack => if has_sub(text_or_nothing(found), path) {
            (silent(), NextView::Go(ProvisionerAction::Restart))
        } else {
            (
                silent().push(
                    warning(
                        "ConfigMap verification failed: config doesn't contain "@ + path
                            + ". The k3s addon controller may have reverted the change."@,
                    ),
                ),
                NextView::Go(ProvisionerAction::PatchAgain),
            )
        },
        ProvisionerAction::PatchAgain => (silent(), NextView::Go(ProvisionerAction::Restart)),
        ProvisionerAction::Restart => (
            if good(ev) {
                silent()
            } else {
                silent().push(
                    warning("Failed to restart local-path-provisioner: "@ + reason(ev)),
                )
            },
            NextView::Go(ProvisionerAction::AwaitRollout),
        ),
        ProvisionerAction::AwaitRollout => (
            if good(ev) {
                silent().push(configured_line(path))
            } else {
                silent().push(
                    warning("local-path-provisioner restart did not complete within timeout"@),
                ).push(configured_line(path))
            },
            NextView::Done(()),
        ),
    }
}

/// The step that follows an action.
pub fn configure_local_path_provisioner(
    a: ProvisionerAction,
    ev: &Event,
    found: &Option<String>,
    path: &str,
) -> (r: Step<ProvisionerAction, ()>)
    requires
        action_valid(a),
    ensures
        r@ == provisioner_next(a, *ev, opt_view(*found), path@),
        r.next matches Next::Go(b) ==> action_valid(b),
{
    match a {
        ProvisionerAction::Detach => go(ProvisionerAction::Patch(1)),
        ProvisionerAction::Patch(n) => if ev.is_good() {
            go(ProvisionerAction::ReadBack)
        } else if n < PATCH_ATTEMPTS {
            let mut s = "ConfigMap patch attempt ".to_owned();
            s.append(u64_text(n as u64).as_str());
            s.append(" failed, retrying...");
            let mut lines = no_lines();
            say(&mut lines, OutputLine::info(s.as_str()));
            Step { lines, next: Next::Go(ProvisionerAction::Patch(n + 1)) }
        } else {
            let mut s = "Failed to configure local-path-provisioner after 3 attempts: ".to_owned();
            s.append(ev.why().as_str());
            s.append(". PVCs may not work correctly.");
            let mut lines = no_lines();
            say(&mut lines, OutputLine::warning(s.as_str()));
            Step { lines, next: Next::Done(()) }
        },
        ProvisionerAction::ReadBack => {
            let kept = match found {
                Some(c) => contains(c.as_str(), path),
                None => {
                    let nothing = String::new();
                    assert(nothing@ =~= Seq::<char>::empty());
                    contains(nothing.as_str(), path)
                },
            };
            if kept {
                go(ProvisionerAction::Restart)
            } else {
                let mut s = "ConfigMap verification failed: config doesn't contain ".to_owned();
                s.append(path);
                s.append(". The k3s addon controller may have reverted the change.");
                let mut lines = no_lines();
                say(&mut lines, OutputLine::warning(s.as_str()));
                Step { lines, next: Next::Go(ProvisionerAction::PatchAgain) }
            }
        },
        ProvisionerAction::PatchAgain => go(ProvisionerAction::Restart),
        ProvisionerAction::Restart => {
            let mut lines = no_lines();
            if !ev.is_good() {
                let mut s = "Failed to restart local-path-provisioner: ".to_owned();
                s.append(ev.why().as_str());
                say(&mut lines, OutputLine::warning(s.as_str()));
            }
            Step { lines, next: Next::Go(ProvisionerAction::AwaitRollout) }
        },
        ProvisionerAction::AwaitRollout => {
            let mut lines = no_lines();
            if !ev.is_good() {
                say(
                    &mut lines,
                    OutputLine::warning(
                        "local-path-provisioner restart did not complete within timeout",
                    ),
                );
            }
            let mut s = "Configured local-path-provisioner to use ".to_owned();
            s.append(path);
            say(&mut lines, OutputLine::info(s.as_str()));
            Step { lines, next: Next::Done(()) }
        },
    }
}

/// How many actions are left at most.
pub open spec fn actions_left(a: ProvisionerAction) -> int {
    match a {
        ProvisionerAction::Detach => 8,
        ProvisionerAction::Patch(n) => 5 + PATCH_ATTEMPTS - n,
        ProvisionerAction::ReadBack => 4,
        ProvisionerAction::PatchAgain => 3,
        ProvisionerAction::Restart => 2,
        ProvisionerAction::AwaitRollout => 1,
    }
}

/// Trouble with the provisioner never fails the creation of a cluster, and its configuration ends
/// after at most eight actions.
pub proof fn law_provisioner_trouble_is_not_fatal(
    a: ProvisionerAction,
    ev: Event,
    found: Option<Seq<char>>,
    path: Seq<char>,
)
    requires
        action_valid(a),
    ensures
        !(provisioner_next(a, ev, found, path).1 is Fail),
        provisioner_next(a, ev, found, path).1 matches NextView::Go(b) ==> actions_left(b)
            < actions_left(a),
        0 < actions_left(a) <= 8,
{
}

/// The provisioner is restarted once its configuration was read back with the directory in it, or was
/// changed once more; a change that fails is tried again, three times in all.
pub proof fn law_provisioner_is_configured_in_order(
    a: ProvisionerAction,
    ev: Event,
    found: Option<Seq<char>>,
    path: Seq<char>,
)
    ensures
        provisioner_next(a, ev, found, path).1 matches NextView::Go(b) ==> match b {
            ProvisionerAction::Detach => false,
            ProvisionerAction::Patch(n) => (a is Detach && n == 1) || (
            a matches ProvisionerAction::Patch(m) && m < 3 && !good(ev) && n == m + 1),
            ProvisionerAction::ReadBack => a is Patch && good(ev),
            ProvisionerAction::PatchAgain => a is ReadBack && !(found matches Some(s) && has_sub(
                s,
                path,
            )) && !(found is None && has_sub(Seq::empty(), path)),
            ProvisionerAction::Restart => a is PatchAgain || (a is ReadBack && ((
            found matches Some(s) && has_sub(s, path)) || (found is None && has_sub(
                Seq::empty(),
                path,
            )))),
            ProvisionerAction::AwaitRollout => a is Restart,
        },
        provisioner_next(a, ev, found, path).1 is Done <==> a is AwaitRollout || (
        a matches ProvisionerAction::Patch(n) && n >= 3 && !good(ev)),
        a is AwaitRollout ==> provisioner_next(a, ev, found, path).0.last() == info(
            "Configured local-path-provisioner to use "@ + path,
        ),
{
}

} // verus!
