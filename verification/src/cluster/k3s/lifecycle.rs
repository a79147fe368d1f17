//! The life of a cluster: start, creation, start from a snapshot, stop and deletion.

use vstd::prelude::*;
use crate::machine::{
    done, fail, find_failure, first_failure, go, good, in_full, law_first_failure_decides, no_lines,
    reason, silent, tells_success, Event,
    Next, NextView, Step, StepView, Trouble,
};
use crate::output::{error, info, say, success, warning, LineView, OutputLine, OutputType};

verus! {

/// What came of starting a cluster.
#[derive(Debug, Clone, Copy, PartialEq, Eq, Structural)]
pub enum StartOutcome {
    /// It ran already.
    AlreadyRunning,
    /// Its stopped container was started.
    StartedExisting,
    /// It was started from a snapshot.
    StartedFromSnapshot,
    /// It was created.
    FreshCreated,
}

/// The settings on which the steps depend.
#[derive(Debug, Clone, Copy)]
pub struct LifecycleSettings {
    pub use_snapshot: bool,
    pub snapshot_auto_cleanup: bool,
    pub has_hooks: bool,
}

// ---------------------------------------------------------------------------
// Start
// ---------------------------------------------------------------------------

/// An action on the way to a running cluster.
#[derive(Debug, Clone, Copy, PartialEq, Eq, Structural)]
pub enum StartAction {
    /// Ask whether Docker answers.
    AskDocker,
    /// Check Docker's control group driver.
    CheckDriver,
    /// Ask whether the container runs.
    AskRunning,
    /// Ask whether the container is there.
    AskExists,
    /// Start the container.
    StartContainer,
    /// Wait until the cluster answers.
    AwaitApi,
    /// Run the hooks for a cluster that answers.
    RunHooks,
    /// Ask whether there is a snapshot for the configuration.
    AskSnapshot,
    /// Ask whether that snapshot is a deep one.
    AskDeep,
    /// Start from the snapshot, which may be a deep one.
    StartFromSnapshot(bool),
    /// Create the cluster.
    CreateCluster,
    /// Make a snapshot of it.
    CreateSnapshot,
    /// Remove the other snapshots.
    CleanUpSnapshots,
}

/// The first step of a start.
pub open spec fn start_begin() -> StepView<StartAction, StartOutcome> {
    (silent().push(info("Starting k3s cluster..."@)), NextView::Go(StartAction::AskDocker))
}

/// The step of a start that follows an action.
pub open spec fn start_next(a: StartAction, ev: Event, s: LifecycleSettings) -> StepView<
    StartAction,
    StartOutcome,
> {
    match a {
        StartAction::AskDocker => if good(ev) {
            (silent(), NextView::Go(StartAction::CheckDriver))
        } else {
            (
                silent(),
                NextView::Fail("Docker is not accessible. Please start Docker first."@),
            )
        },
        StartAction::CheckDriver => if good(ev) {
            (silent(), NextView::Go(StartAction::AskRunning))
        } else {
            (silent(), NextView::Fail(reason(ev)))
        },
        StartAction::AskRunning => if good(ev) {
            (
                silent().push(info("Cluster is already running"@)),
                NextView::Done(StartOutcome::AlreadyRunning),
            )
        } else {
            (silent(), NextView::Go(StartAction::AskExists))
        },
        StartAction::AskExists => if good(ev) {
            (
                silent().push(info("Starting existing cluster container..."@)),
                NextView::Go(StartAction::StartContainer),
            )
        } else if s.use_snapshot {
            (silent(), NextView::Go(StartAction::AskSnapshot))
        } else {
            (silent(), NextView::Go(StartAction::CreateCluster))
        },
        StartAction::StartContainer => if good(ev) {
            (silent(), NextView::Go(StartAction::AwaitApi))
        } else {
            (silent(), NextView::Fail(reason(ev)))
        },
        StartAction::AwaitApi => if !good(ev) {
            (silent(), NextView::Fail(reason(ev)))
        } else if s.has_hooks {
            (silent(), NextView::Go(StartAction::RunHooks))
        } else {
            (silent(), NextView::Done(StartOutcome::StartedExisting))
        },
        StartAction::RunHooks => if good(ev) {
            (silent(), NextView::Done(StartOutcome::StartedExisting))
        } else {
            (silent(), NextView::Fail(reason(ev)))
        },
        StartAction::AskSnapshot => if good(ev) {
            (silent(), NextView::Go(StartAction::AskDeep))
        } else {
            (
                silent().push(
                    info(
                        "No snapshot found, creating cluster (this will be faster next time)..."@,
                    ),
                ),
                NextView::Go(StartAction::CreateCluster),
            )
        },
        StartAction::AskDeep => (
            silent().push(info("Using snapshot for faster startup..."@)),
            NextView::Go(StartAction::StartFromSnapshot(good(ev))),
        ),
        StartAction::StartFromSnapshot(_) => if good(ev) {
            (silent(), NextView::Done(StartOutcome::StartedFromSnapshot))
        } else {
            (silent(), NextView::Fail(reason(ev)))
        },
        StartAction::CreateCluster => if !good(ev) {
            (silent(), NextView::Fail(reason(ev)))
        } else if s.use_snapshot {
            (silent(), NextView::Go(StartAction::CreateSnapshot))
        } else {
            (silent(), NextView::Done(StartOutcome::FreshCreated))
        },
        StartAction::CreateSnapshot => if good(ev) && s.snapshot_auto_cleanup {
            (silent(), NextView::Go(StartAction::CleanUpSnapshots))
        } else {
            (silent(), NextView::Done(StartOutcome::FreshCreated))
        },
        StartAction::CleanUpSnapshots => (silent(), NextView::Done(StartOutcome::FreshCreated)),
    }
}

/// How many more actions a start takes at most, this one counted.
pub open spec fn start_distance(a: StartAction) -> nat {
    match a {
        StartAction::AskDocker => 9,
        StartAction::CheckDriver => 8,
        StartAction::AskRunning => 7,
        StartAction::AskExists => 6,
        StartAction::AskSnapshot => 5,
        StartAction::AskDeep => 4,
        StartAction::CreateCluster => 3,
        StartAction::StartContainer => 3,
        StartAction::AwaitApi => 2,
        StartAction::CreateSnapshot => 2,
        StartAction::RunHooks => 1,
        StartAction::StartFromSnapshot(_) => 1,
        StartAction::CleanUpSnapshots => 1,
    }
}

/// Whether an action only asks.
pub open spec fn only_asks(a: StartAction) -> bool {
    a is AskDocker || a is CheckDriver || a is AskRunning || a is AskExists || a is AskSnapshot || a
        is AskDeep
}

/// A start is over after nine actions at most.
pub proof fn law_start_ends(a: StartAction, ev: Event, s: LifecycleSettings)
    ensures
        start_next(a, ev, s).1 matches NextView::Go(b) ==> start_distance(b) < start_distance(a),
{
}

/// A cluster that runs is left alone: the actions that lead to this outcome only ask.
pub proof fn law_running_cluster_is_left_alone(a: StartAction, ev: Event, s: LifecycleSettings)
    requires
        start_next(a, ev, s).1 == NextView::<StartAction, StartOutcome>::Done(
            StartOutcome::AlreadyRunning,
        ),
    ensures
        a is AskRunning && good(ev),
        only_asks(a),
{
}

/// Only asking actions lead to asking actions, so nothing has been changed before the last
/// question is answered.
pub proof fn law_questions_come_first(a: StartAction, ev: Event, s: LifecycleSettings)
    ensures
        start_next(a, ev, s).1 matches NextView::Go(b) && only_asks(b) ==> only_asks(a),
{
}

/// Once the cluster is created, trouble with snapshots does not fail a start.
pub proof fn law_snapshot_trouble_is_not_fatal(a: StartAction, ev: Event, s: LifecycleSettings)
    requires
        a is CreateSnapshot || a is CleanUpSnapshots,
    ensures
        start_next(a, ev, s).1 is Fail == false,
        start_next(a, ev, s).1 matches NextView::Done(o) ==> o == StartOutcome::FreshCreated,
{
}

/// Every action of a start has its grounds: what is changed follows from what was found before it.
/// Docker is asked first; a container is started only where there is one that does not run, and a
/// cluster is created only where there is neither a container nor a snapshot to use.
pub proof fn law_start_acts_on_what_it_found(a: StartAction, ev: Event, s: LifecycleSettings)
    ensures
        start_begin().1 == NextView::<StartAction, StartOutcome>::Go(StartAction::AskDocker),
        start_next(a, ev, s).1 matches NextView::Go(b) ==> match b {
            StartAction::AskDocker => false,
            StartAction::CheckDriver => a is AskDocker && good(ev),
            StartAction::AskRunning => a is CheckDriver && good(ev),
            StartAction::AskExists => a is AskRunning && !good(ev),
            StartAction::StartContainer => a is AskExists && good(ev),
            StartAction::AwaitApi => a is StartContainer && good(ev),
            StartAction::RunHooks => a is AwaitApi && good(ev) && s.has_hooks,
            StartAction::AskSnapshot => a is AskExists && !good(ev) && s.use_snapshot,
            StartAction::AskDeep => a is AskSnapshot && good(ev),
            StartAction::StartFromSnapshot(deep) => a is AskDeep && deep == good(ev),
            StartAction::CreateCluster => !good(ev) && (a is AskSnapshot || (a is AskExists
                && !s.use_snapshot)),
            StartAction::CreateSnapshot => a is CreateCluster && good(ev) && s.use_snapshot,
            StartAction::CleanUpSnapshots => a is CreateSnapshot && good(ev)
                && s.snapshot_auto_cleanup,
        },
{
}

/// A start tells the truth about its end: a cluster is said to run already only where it was found
/// running, and to be started or created only where the action that does so went well and nothing
/// that is owed to the cluster is left to do.
pub proof fn law_start_outcome_is_true(a: StartAction, ev: Event, s: LifecycleSettings)
    ensures
        start_next(a, ev, s).1 matches NextView::Done(o) ==> match o {
            StartOutcome::AlreadyRunning => a is AskRunning && good(ev),
            StartOutcome::StartedExisting => good(ev) && (a is RunHooks || (a is AwaitApi
                && !s.has_hooks)),
            StartOutcome::StartedFromSnapshot => a is StartFromSnapshot && good(ev),
            StartOutcome::FreshCreated => a is CleanUpSnapshots || (a is CreateSnapshot && !(good(
                ev,
            ) && s.snapshot_auto_cleanup)) || (a is CreateCluster && good(ev) && !s.use_snapshot),
        },
{
}

/// A start fails only for an action that went wrong and that the cluster cannot do without, and then
/// for its reason; what goes well and what is merely not so never fails it.
pub proof fn law_start_fails_for_a_reason(a: StartAction, ev: Event, s: LifecycleSettings)
    ensures
        start_next(a, ev, s).1 is Fail <==> !good(ev) && (a is AskDocker || a is CheckDriver || a
            is StartContainer || a is AwaitApi || a is RunHooks || a is StartFromSnapshot || a
            is CreateCluster),
        start_next(a, ev, s).1 matches NextView::Fail(e) ==> a is AskDocker || e == reason(ev),
        !tells_success(start_next(a, ev, s).0),
{
}

/// Without snapshots none is asked for, used or made.
pub proof fn law_snapshots_can_be_switched_off(a: StartAction, ev: Event, s: LifecycleSettings)
    requires
        !s.use_snapshot,
        !(a is AskSnapshot || a is AskDeep || a is CreateSnapshot),
    ensures
        start_next(a, ev, s).1 matches NextView::Go(b) ==> !(b is AskSnapshot || b is AskDeep || b
            is StartFromSnapshot || b is CreateSnapshot || b is CleanUpSnapshots),
{
}

/// The first step of a start.
pub fn begin_start() -> (r: Step<StartAction, StartOutcome>)
    ensures
        r@ == start_begin(),
{
    let mut lines = no_lines();
    say(&mut lines, OutputLine::info("Starting k3s cluster..."));
    Step { lines, next: Next::Go(StartAction::AskDocker) }
}

/// The step of a start that follows an action.
pub fn start(a: StartAction, ev: &Event, s: &LifecycleSettings) -> (r: Step<
    StartAction,
    StartOutcome,
>)
    ensures
        r@ == start_next(a, *ev, *s),
{
    let ok = ev.is_good();
    let mut lines = no_lines();
    match a {
        StartAction::AskDocker => if ok {
            go(StartAction::CheckDriver)
        } else {
            Step {
                lines,
                next: Next::Fail(
                    "Docker is not accessible. Please start Docker first.".to_owned(),
                ),
            }
        },
        StartAction::CheckDriver => if ok {
            go(StartAction::AskRunning)
        } else {
            fail(ev)
        },
        StartAction::AskRunning => if ok {
            say(&mut lines, OutputLine::info("Cluster is already running"));
            Step { lines, next: Next::Done(StartOutcome::AlreadyRunning) }
        } else {
            go(StartAction::AskExists)
        },
        StartAction::AskExists => if ok {
            say(&mut lines, OutputLine::info("Starting existing cluster container..."));
            Step { lines, next: Next::Go(StartAction::StartContainer) }
        } else if s.use_snapshot {
            go(StartAction::AskSnapshot)
        } else {
            go(StartAction::CreateCluster)
        },
        StartAction::StartContainer => if ok {
            go(StartAction::AwaitApi)
        } else {
            fail(ev)
        },
        StartAction::AwaitApi => if !ok {
            fail(ev)
        } else if s.has_hooks {
            go(StartAction::RunHooks)
        } else {
            done(StartOutcome::StartedExisting)
        },
        StartAction::RunHooks => if ok {
            done(StartOutcome::StartedExisting)
        } else {
            fail(ev)
        },
        StartAction::AskSnapshot => if ok {
            go(StartAction::AskDeep)
        } else {
            say(
                &mut lines,
                OutputLine::info(
                    "No snapshot found, creating cluster (this will be faster next time)...",
                ),
            );
            Step { lines, next: Next::Go(StartAction::CreateCluster) }
        },
        StartAction::AskDeep => {
            say(&mut lines, OutputLine::info("Using snapshot for faster startup..."));
            Step { lines, next: Next::Go(StartAction::StartFromSnapshot(ok)) }
        },
        StartAction::StartFromSnapshot(_) => if ok {
            done(StartOutcome::StartedFromSnapshot)
        } else {
            fail(ev)
        },
        StartAction::CreateCluster => if !ok {
            fail(ev)
        } else if s.use_snapshot {
            go(StartAction::CreateSnapshot)
        } else {
            done(StartOutcome::FreshCreated)
        },
        StartAction::CreateSnapshot => if ok && s.snapshot_auto_cleanup {
            go(StartAction::CleanUpSnapshots)
        } else {
            done(StartOutcome::FreshCreated)
        },
        StartAction::CleanUpSnapshots => done(StartOutcome::FreshCreated),
    }
}

// ---------------------------------------------------------------------------
// Creation
// ---------------------------------------------------------------------------

/// An action on the way to a new cluster.
#[derive(Debug, Clone, Copy, PartialEq, Eq, Structural)]
pub enum CreateAction {
    /// Ask whether the image is there.
    AskImage,
    /// Create the volumes and the network at once, and pull the image where it is missing.
    Prepare(bool),
    /// Find out where Docker's socket and data are.
    FindDocker,
    /// Run the container.
    RunContainer,
    /// Wait until the cluster answers.
    AwaitApi,
    /// Install socat and the agent and set up access, at once.
    Configure,
    /// Wait for the components of the cluster.
    AwaitReady,
    /// Run the hooks for a cluster that answers.
    RunHooks,
}

/// What came of an action on the way to a new cluster.
#[derive(Debug)]
pub enum CreateEvent {
    Came(Event),
    /// The results of installing socat, of setting up access and of installing the agent.
    Installed(Result<(), Trouble>, Result<(), String>, Result<(), Trouble>),
}

/// The first step of a creation.
pub open spec fn create_begin() -> StepView<CreateAction, ()> {
    (
        silent().push(info("Creating new k3s cluster..."@)).push(
            info("Setting up cluster prerequisites..."@),
        ),
        NextView::Go(CreateAction::AskImage),
    )
}

/// What is said while the prerequisites are made.
pub open spec fn preparing(image: Seq<char>, pull: bool) -> Seq<LineView> {
    let made = silent().push(info("Creating Docker volume for rancher data..."@)).push(
        info("Creating Docker volume for PV storage..."@),
    ).push(info("Creating Docker network..."@));
    if pull {
        made.push(info("Pulling k3s image: "@ + image + "..."@))
    } else {
        made
    }
}

/// The end of a creation.
pub open spec fn create_end() -> StepView<CreateAction, ()> {
    (silent().push(success("K3s cluster is ready!"@)), NextView::Done(()))
}

/// The step of a creation that follows an action; `image` is the image of the cluster. The results
/// of the installations lead on from them; until they have come, the installations are still to do.
pub open spec fn create_next(
    a: CreateAction,
    ev: CreateEvent,
    s: LifecycleSettings,
    image: Seq<char>,
) -> StepView<CreateAction, ()> {
    match ev {
        CreateEvent::Installed(socat, kubeconfig, agent) => configured_next(
            socat,
            kubeconfig,
            agent,
        ),
        CreateEvent::Came(e) => came_next(a, e, s, image),
    }
}

/// The step of a creation that follows an action other than the installations.
pub open spec fn came_next(
    a: CreateAction,
    ev: Event,
    s: LifecycleSettings,
    image: Seq<char>,
) -> StepView<CreateAction, ()> {
    match a {
        CreateAction::AskImage => (
            preparing(image, !good(ev)),
            NextView::Go(CreateAction::Prepare(!good(ev))),
        ),
        CreateAction::Prepare(_) => if good(ev) {
            (silent(), NextView::Go(CreateAction::FindDocker))
        } else {
            (silent(), NextView::Fail(reason(ev)))
        },
        CreateAction::FindDocker => if good(ev) {
            (
                silent().push(info("Starting k3s container..."@)),
                NextView::Go(CreateAction::RunContainer),
            )
        } else {
            (silent(), NextView::Fail(reason(ev)))
        },
        CreateAction::RunContainer => if good(ev) {
            (silent(), NextView::Go(CreateAction::AwaitApi))
        } else {
            (silent(), NextView::Fail(reason(ev)))
        },
        CreateAction::AwaitApi => if good(ev) {
            (
                silent().push(info("Configuring cluster access..."@)).push(
                    info("Installing socat in container..."@),
                ).push(info("Setting up kubeconfig..."@)).push(info("Installing stats agent..."@)),
                NextView::Go(CreateAction::Configure),
            )
        } else {
            (silent(), NextView::Fail(reason(ev)))
        },
        CreateAction::Configure => (silent(), NextView::Go(CreateAction::Configure)),
        CreateAction::AwaitReady => if !good(ev) {
            (silent(), NextView::Fail(reason(ev)))
        } else if s.has_hooks {
            (silent(), NextView::Go(CreateAction::RunHooks))
        } else {
            create_end()
        },
        CreateAction::RunHooks => if good(ev) {
            create_end()
        } else {
            (silent(), NextView::Fail(reason(ev)))
        },
    }
}

/// What is said of the results of the three installations.
pub open spec fn installations(
    socat: Result<(), Trouble>,
    kubeconfig: Result<(), String>,
    agent: Result<(), Trouble>,
) -> Seq<LineView> {
    let a = match socat {
        Ok(_) => silent(),
        Err(e) => silent().push(error("Socat install failed: "@ + in_full(e@))),
    };
    let b = match kubeconfig {
        Ok(_) => a,
        Err(e) => a.push(error("Kubeconfig setup failed: "@ + e@)),
    };
    match agent {
        Ok(_) => b,
        Err(e) => b.push(
            warning("Agent install failed (stats will use fallback): "@ + in_full(e@)),
        ),
    }
}

/// The step of a creation that follows the installations. Without the agent the cluster works
/// too.
pub open spec fn configured_next(
    socat: Result<(), Trouble>,
    kubeconfig: Result<(), String>,
    agent: Result<(), Trouble>,
) -> StepView<CreateAction, ()> {
    (
        installations(socat, kubeconfig, agent),
        match (socat, kubeconfig) {
            (Err(e), _) => NextView::Fail(e.message@),
            (_, Err(e)) => NextView::Fail(e@),
            _ => NextView::Go(CreateAction::AwaitReady),
        },
    )
}

/// How many more actions a creation takes at most, this one counted.
pub open spec fn create_distance(a: CreateAction) -> nat {
    match a {
        CreateAction::AskImage => 8,
        CreateAction::Prepare(_) => 7,
        CreateAction::FindDocker => 6,
        CreateAction::RunContainer => 5,
        CreateAction::AwaitApi => 4,
        CreateAction::Configure => 3,
        CreateAction::AwaitReady => 2,
        CreateAction::RunHooks => 1,
    }
}

/// A creation takes its actions in order, each once, and ends well only after the last.
pub proof fn law_creation_takes_all_actions(
    a: CreateAction,
    ev: CreateEvent,
    s: LifecycleSettings,
    image: Seq<char>,
)
    requires
        a is Configure <==> ev is Installed,
    ensures
        create_next(a, ev, s, image).1 matches NextView::Go(b) ==> create_distance(b) + 1
            == create_distance(a),
        create_next(a, ev, s, image).1 is Done ==> (ev matches CreateEvent::Came(e) && good(e)) && (
        a is RunHooks || (a is AwaitReady && !s.has_hooks)),
        ev matches CreateEvent::Came(e) ==> (a !is AskImage && !good(e) ==> create_next(
            a,
            ev,
            s,
            image,
        ).1 == NextView::<CreateAction, ()>::Fail(reason(e))),
{
}

/// The actions of a creation go from one to the next: the image is pulled exactly where it is
/// missing, the container runs only once what it needs was found, and the cluster is said to be
/// ready only once it is over.
pub proof fn law_creation_goes_on(a: CreateAction, ev: Event, s: LifecycleSettings, image: Seq<char>)
    ensures
        create_begin().1 == NextView::<CreateAction, ()>::Go(CreateAction::AskImage),
        came_next(a, ev, s, image).1 matches NextView::Go(b) ==> match b {
            CreateAction::AskImage => false,
            CreateAction::Prepare(pull) => a is AskImage && pull == !good(ev),
            CreateAction::FindDocker => a is Prepare && good(ev),
            CreateAction::RunContainer => a is FindDocker && good(ev),
            CreateAction::AwaitApi => a is RunContainer && good(ev),
            CreateAction::Configure => a is Configure || (a is AwaitApi && good(ev)),
            CreateAction::AwaitReady => false,
            CreateAction::RunHooks => a is AwaitReady && good(ev) && s.has_hooks,
        },
        came_next(a, ev, s, image).1 is Fail <==> !good(ev) && !(a is AskImage) && !(a is Configure),
        tells_success(came_next(a, ev, s, image).0) ==> came_next(a, ev, s, image).1 is Done,
        came_next(a, ev, s, image).1 is Done ==> tells_success(came_next(a, ev, s, image).0),
{
    let lines = came_next(a, ev, s, image).0;
    if came_next(a, ev, s, image).1 is Done {
        assert(lines[0].0 == OutputType::Success);
    }
}

/// A missing agent does not fail a creation; missing socat or missing access does.
pub proof fn law_only_the_agent_may_be_missing(
    socat: Result<(), Trouble>,
    kubeconfig: Result<(), String>,
    agent: Result<(), Trouble>,
)
    ensures
        configured_next(socat, kubeconfig, agent).1 is Go <==> socat is Ok && kubeconfig is Ok,
{
}

/// The first step of a creation.
pub fn begin_create() -> (r: Step<CreateAction, ()>)
    ensures
        r@ == create_begin(),
{
    let mut lines = no_lines();
    say(&mut lines, OutputLine::info("Creating new k3s cluster..."));
    say(&mut lines, OutputLine::info("Setting up cluster prerequisites..."));
    Step { lines, next: Next::Go(CreateAction::AskImage) }
}

fn created() -> (r: Step<CreateAction, ()>)
    ensures
        r@ == create_end(),
{
    let mut lines = no_lines();
    say(&mut lines, OutputLine::success("K3s cluster is ready!"));
    Step { lines, next: Next::Done(()) }
}

/// The step of a creation that follows an action; `image` is the image of the cluster.
pub fn create_cluster(a: CreateAction, ev: CreateEvent, s: &LifecycleSettings, image: &str) -> (r:
    Step<CreateAction, ()>)
    ensures
        r@ == create_next(a, ev, *s, image@),
{
    match ev {
        CreateEvent::Installed(socat, kubeconfig, agent) => configured(socat, kubeconfig, agent),
        CreateEvent::Came(e) => continue_creation(a, &e, s, image),
    }
}

/// The step of a creation that follows an action other than the installations.
fn continue_creation(a: CreateAction, ev: &Event, s: &LifecycleSettings, image: &str) -> (r: Step<
    CreateAction,
    (),
>)
    ensures
        r@ == came_next(a, *ev, *s, image@),
{
    let ok = ev.is_good();
    let mut lines = no_lines();
    match a {
        CreateAction::AskImage => {
            say(&mut lines, OutputLine::info("Creating Docker volume for rancher data..."));
            say(&mut lines, OutputLine::info("Creating Docker volume for PV storage..."));
            say(&mut lines, OutputLine::info("Creating Docker network..."));
            if !ok {
                let mut t = "Pulling k3s image: ".to_owned();
                t.append(image);
                t.append("...");
                say(&mut lines, OutputLine::info(t.as_str()));
            }
            Step { lines, next: Next::Go(CreateAction::Prepare(!ok)) }
        },
        CreateAction::Prepare(_) => if ok {
            go(CreateAction::FindDocker)
        } else {
            fail(ev)
        },
        CreateAction::FindDocker => if ok {
            say(&mut lines, OutputLine::info("Starting k3s container..."));
            Step { lines, next: Next::Go(CreateAction::RunContainer) }
        } else {
            fail(ev)
        },
        CreateAction::RunContainer => if ok {
            go(CreateAction::AwaitApi)
        } else {
            fail(ev)
        },
        CreateAction::AwaitApi => if ok {
            say(&mut lines, OutputLine::info("Configuring cluster access..."));
            say(&mut lines, OutputLine::info("Installing socat in container..."));
            say(&mut lines, OutputLine::info("Setting up kubeconfig..."));
            say(&mut lines, OutputLine::info("Installing stats agent..."));
            Step { lines, next: Next::Go(CreateAction::Configure) }
        } else {
            fail(ev)
        },
        CreateAction::Configure => go(CreateAction::Configure),
        CreateAction::AwaitReady => if !ok {
            fail(ev)
        } else if s.has_hooks {
            go(CreateAction::RunHooks)
        } else {
            created()
        },
        CreateAction::RunHooks => if ok {
            created()
        } else {
            fail(ev)
        },
    }
}

/// The step of a creation that follows the installations.
fn configured(
    socat: Result<(), Trouble>,
    kubeconfig: Result<(), String>,
    agent: Result<(), Trouble>,
) -> (r: Step<CreateAction, ()>)
    ensures
        r@ == configured_next(socat, kubeconfig, agent),
{
    let mut lines = no_lines();
    if let Err(e) = &socat {
        let mut t = "Socat install failed: ".to_owned();
        t.append(e.told_in_full().as_str());
        say(&mut lines, OutputLine::error(t.as_str()));
    }
    if let Err(e) = &kubeconfig {
        let mut t = "Kubeconfig setup failed: ".to_owned();
        t.append(e.as_str());
        say(&mut lines, OutputLine::error(t.as_str()));
    }
    if let Err(e) = &agent {
        let mut t = "Agent install failed (stats will use fallback): ".to_owned();
        t.append(e.told_in_full().as_str());
        say(&mut lines, OutputLine::warning(t.as_str()));
    }
    match (socat, kubeconfig) {
        (Err(e), _) => Step { lines, next: Next::Fail(e.message) },
        (_, Err(e)) => Step { lines, next: Next::Fail(e) },
        _ => Step { lines, next: Next::Go(CreateAction::AwaitReady) },
    }
}

// ---------------------------------------------------------------------------
// Start from a snapshot
// ---------------------------------------------------------------------------

/// An action on the way to a cluster from a snapshot.
#[derive(Debug, Clone, Copy, PartialEq, Eq, Structural)]
pub enum RestoreAction {
    /// Find out where Docker's socket is.
    FindDocker,
    /// Create the volumes and the network at once.
    Prepare,
    /// Run the container.
    RunContainer,
    /// Wait until the cluster answers.
    AwaitApi,
    /// Set up access.
    SetUpAccess,
    /// Wait for the components of the cluster.
    AwaitReady,
    /// Run the hooks for a cluster that answers.
    RunHooks,
}

/// The first step of a start from a snapshot.
pub open spec fn restore_begin(image: Seq<char>, deep: bool) -> StepView<RestoreAction, ()> {
    (
        silent().push(
            info(
                if deep {
                    "Deep snapshot detected: "@ + image + " (skipping deployment waits)"@
                } else {
                    "Starting from snapshot: "@ + image
                },
            ),
        ),
        NextView::Go(RestoreAction::FindDocker),
    )
}

/// The end of a start from a snapshot.
pub open spec fn restore_end() -> StepView<RestoreAction, ()> {
    (silent().push(success("K3s cluster started from snapshot!"@)), NextView::Done(()))
}

/// What follows once the cluster is ready.
pub open spec fn restored(s: LifecycleSettings) -> StepView<RestoreAction, ()> {
    if s.has_hooks {
        (silent(), NextView::Go(RestoreAction::RunHooks))
    } else {
        restore_end()
    }
}

/// The step of a start from a snapshot that follows an action.
pub open spec fn restore_next(
    a: RestoreAction,
    ev: Event,
    s: LifecycleSettings,
    deep: bool,
) -> StepView<RestoreAction, ()> {
    if !good(ev) {
        (silent(), NextView::Fail(reason(ev)))
    } else {
        match a {
            RestoreAction::FindDocker => (
                silent().push(info("Ensuring prerequisites..."@)),
                NextView::Go(RestoreAction::Prepare),
            ),
            RestoreAction::Prepare => (
                silent().push(info("Starting container from snapshot..."@)),
                NextView::Go(RestoreAction::RunContainer),
            ),
            RestoreAction::RunContainer => (silent(), NextView::Go(RestoreAction::AwaitApi)),
            RestoreAction::AwaitApi => (
                silent().push(info("Setting up kubeconfig..."@)),
                NextView::Go(RestoreAction::SetUpAccess),
            ),
            RestoreAction::SetUpAccess => if deep {
                restored(s)
            } else {
                (silent(), NextView::Go(RestoreAction::AwaitReady))
            },
            RestoreAction::AwaitReady => restored(s),
            RestoreAction::RunHooks => restore_end(),
        }
    }
}

/// How many more actions a start from a snapshot takes at most, this one counted.
pub open spec fn restore_distance(a: RestoreAction) -> nat {
    match a {
        RestoreAction::FindDocker => 7,
        RestoreAction::Prepare => 6,
        RestoreAction::RunContainer => 5,
        RestoreAction::AwaitApi => 4,
        RestoreAction::SetUpAccess => 3,
        RestoreAction::AwaitReady => 2,
        RestoreAction::RunHooks => 1,
    }
}

/// A start from a snapshot ends. From a deep snapshot it never waits for components; from another
/// it ends well only after that wait.
pub proof fn law_deep_snapshots_skip_the_wait(
    a: RestoreAction,
    ev: Event,
    s: LifecycleSettings,
    deep: bool,
)
    ensures
        restore_next(a, ev, s, deep).1 matches NextView::Go(b) ==> restore_distance(b)
            < restore_distance(a),
        deep ==> restore_next(a, ev, s, deep).1 != NextView::<RestoreAction, ()>::Go(
            RestoreAction::AwaitReady,
        ),
        !deep && (restore_next(a, ev, s, deep).1 is Done || restore_next(a, ev, s, deep).1
            == NextView::<RestoreAction, ()>::Go(RestoreAction::RunHooks)) ==> a is AwaitReady || a
            is RunHooks,
{
}

/// A start from a snapshot takes its actions in order: each follows the one before it, and only where
/// that one went well; trouble anywhere fails it, and success is told only at its end.
pub proof fn law_restore_goes_on(a: RestoreAction, ev: Event, s: LifecycleSettings, deep: bool)
    ensures
        forall|image: Seq<char>|
            (#[trigger] restore_begin(image, deep)).1 == NextView::<RestoreAction, ()>::Go(
                RestoreAction::FindDocker,
            ),
        restore_next(a, ev, s, deep).1 matches NextView::Go(b) ==> good(ev) && match b {
            RestoreAction::FindDocker => false,
            RestoreAction::Prepare => a is FindDocker,
            RestoreAction::RunContainer => a is Prepare,
            RestoreAction::AwaitApi => a is RunContainer,
            RestoreAction::SetUpAccess => a is AwaitApi,
            RestoreAction::AwaitReady => a is SetUpAccess && !deep,
            RestoreAction::RunHooks => s.has_hooks && (a is AwaitReady || (a is SetUpAccess
                && deep)),
        },
        restore_next(a, ev, s, deep).1 is Done ==> good(ev) && (a is RunHooks || (!s.has_hooks && (a
            is AwaitReady || (a is SetUpAccess && deep)))),
        restore_next(a, ev, s, deep).1 is Fail <==> !good(ev),
        restore_next(a, ev, s, deep).1 matches NextView::Fail(e) ==> e == reason(ev),
        tells_success(restore_next(a, ev, s, deep).0) <==> restore_next(a, ev, s, deep).1 is Done,
{
    let lines = restore_next(a, ev, s, deep).0;
    if restore_next(a, ev, s, deep).1 is Done {
        assert(lines[0].0 == OutputType::Success);
    }
}

/// The first step of a start from a snapshot.
pub fn begin_restore(image: &str, deep: bool) -> (r: Step<RestoreAction, ()>)
    ensures
        r@ == restore_begin(image@, deep),
{
    let mut lines = no_lines();
    if deep {
        let mut t = "Deep snapshot detected: ".to_owned();
        t.append(image);
        t.append(" (skipping deployment waits)");
        say(&mut lines, OutputLine::info(t.as_str()));
    } else {
        let mut t = "Starting from snapshot: ".to_owned();
        t.append(image);
        say(&mut lines, OutputLine::info(t.as_str()));
    }
    Step { lines, next: Next::Go(RestoreAction::FindDocker) }
}

fn restore_finished() -> (r: Step<RestoreAction, ()>)
    ensures
        r@ == restore_end(),
{
    let mut lines = no_lines();
    say(&mut lines, OutputLine::success("K3s cluster started from snapshot!"));
    Step { lines, next: Next::Done(()) }
}

fn after_restore(s: &LifecycleSettings) -> (r: Step<RestoreAction, ()>)
    ensures
        r@ == restored(*s),
{
    if s.has_hooks {
        go(RestoreAction::RunHooks)
    } else {
        restore_finished()
    }
}

/// The step of a start from a snapshot that follows an action.
pub fn start_from_snapshot(a: RestoreAction, ev: &Event, s: &LifecycleSettings, deep: bool) -> (r:
    Step<RestoreAction, ()>)
    ensures
        r@ == restore_next(a, *ev, *s, deep),
{
    if !ev.is_good() {
        return fail(ev);
    }
    let mut lines = no_lines();
    match a {
        RestoreAction::FindDocker => {
            say(&mut lines, OutputLine::info("Ensuring prerequisites..."));
            Step { lines, next: Next::Go(RestoreAction::Prepare) }
        },
        RestoreAction::Prepare => {
            say(&mut lines, OutputLine::info("Starting container from snapshot..."));
            Step { lines, next: Next::Go(RestoreAction::RunContainer) }
        },
        RestoreAction::RunContainer => go(RestoreAction::AwaitApi),
        RestoreAction::AwaitApi => {
            say(&mut lines, OutputLine::info("Setting up kubeconfig..."));
            Step { lines, next: Next::Go(RestoreAction::SetUpAccess) }
        },
        RestoreAction::SetUpAccess => if deep {
            after_restore(s)
        } else {
            go(RestoreAction::AwaitReady)
        },
        RestoreAction::AwaitReady => after_restore(s),
        RestoreAction::RunHooks => restore_finished(),
    }
}

// ---------------------------------------------------------------------------
// Stop and deletion
// ---------------------------------------------------------------------------

/// An action on the way to a stopped cluster.
#[derive(Debug, Clone, Copy, PartialEq, Eq, Structural)]
pub enum StopAction {
    /// Ask whether the container is there.
    AskExists,
    /// Stop it.
    StopContainer,
}

/// The first step of a stop.
pub open spec fn stop_begin() -> StepView<StopAction, ()> {
    (silent().push(info("Stopping k3s cluster..."@)), NextView::Go(StopAction::AskExists))
}

/// The step of a stop that follows an action.
pub open spec fn stop_next(a: StopAction, ev: Event) -> StepView<StopAction, ()> {
    match a {
        StopAction::AskExists => if good(ev) {
            (silent(), NextView::Go(StopAction::StopContainer))
        } else {
            (silent().push(info("Cluster is not running"@)), NextView::Done(()))
        },
        StopAction::StopContainer => if good(ev) {
            (silent().push(success("K3s cluster stopped"@)), NextView::Done(()))
        } else {
            (silent(), NextView::Fail(reason(ev)))
        },
    }
}

/// A stop ends well only where no container was found or where the container was stopped, and only
/// the latter is told as a success. A container that is there is always stopped, and what stops that
/// from happening fails the stop.
pub proof fn law_stop_stops_the_container(a: StopAction, ev: Event)
    ensures
        stop_begin().1 == NextView::<StopAction, ()>::Go(StopAction::AskExists),
        !tells_success(stop_begin().0),
        stop_next(a, ev).1 matches NextView::Go(b) ==> b is StopContainer && a is AskExists && good(
            ev,
        ),
        stop_next(a, ev).1 is Done <==> (a is AskExists && !good(ev)) || (a is StopContainer
            && good(ev)),
        stop_next(a, ev).1 is Fail <==> a is StopContainer && !good(ev),
        stop_next(a, ev).1 matches NextView::Fail(e) ==> e == reason(ev),
        tells_success(stop_next(a, ev).0) <==> a is StopContainer && good(ev),
{
    if a is StopContainer && good(ev) {
        assert(stop_next(a, ev).0[0].0 == OutputType::Success);
    }
}

/// Whether actions and what came of them, one after another, are a whole stop that ended well.
pub open spec fn stops_well(actions: Seq<StopAction>, events: Seq<Event>) -> bool {
    &&& actions.len() == events.len() > 0
    &&& stop_begin().1 == NextView::<StopAction, ()>::Go(actions[0])
    &&& forall|i: int|
        0 <= i < actions.len() - 1 ==> (#[trigger] stop_next(actions[i], events[i])).1
            == NextView::<StopAction, ()>::Go(actions[i + 1])
    &&& stop_next(actions.last(), events.last()).1 is Done
}

/// In a stop that ended well the container was not there, or it was stopped.
pub proof fn law_stopped_clusters_do_not_run(actions: Seq<StopAction>, events: Seq<Event>)
    requires
        stops_well(actions, events),
    ensures
        (actions[0] is AskExists && !good(events[0])) || (exists|i: int|
            0 <= i < actions.len() && actions[i] is StopContainer && good(#[trigger] events[i])),
{
    let n = actions.len() - 1;
    law_stop_stops_the_container(actions[n], events[n]);
    if actions[n] is AskExists && n > 0 {
        law_stop_stops_the_container(actions[n - 1], events[n - 1]);
        assert(stop_next(actions[n - 1], events[n - 1]).1 == NextView::<StopAction, ()>::Go(
            actions[n - 1 + 1],
        ));
    }
    assert(good(events[n]) || n == 0);
}

/// The first step of a stop.
pub fn begin_stop() -> (r: Step<StopAction, ()>)
    ensures
        r@ == stop_begin(),
{
    let mut lines = no_lines();
    say(&mut lines, OutputLine::info("Stopping k3s cluster..."));
    Step { lines, next: Next::Go(StopAction::AskExists) }
}

/// The step of a stop that follows an action.
pub fn stop(a: StopAction, ev: &Event) -> (r: Step<StopAction, ()>)
    ensures
        r@ == stop_next(a, *ev),
{
    let mut lines = no_lines();
    match a {
        StopAction::AskExists => if ev.is_good() {
            go(StopAction::StopContainer)
        } else {
            say(&mut lines, OutputLine::info("Cluster is not running"));
            Step { lines, next: Next::Done(()) }
        },
        StopAction::StopContainer => if ev.is_good() {
            say(&mut lines, OutputLine::success("K3s cluster stopped"));
            Step { lines, next: Next::Done(()) }
        } else {
            fail(ev)
        },
    }
}

/// An action on the way to a deleted cluster.
#[derive(Debug, Clone, Copy, PartialEq, Eq, Structural)]
pub enum DeleteAction {
    /// Ask whether the container is there.
    AskExists,
    /// Remove it by force.
    RemoveContainer,
    /// Remove, at once, the containers of pods, the network, the volumes for the cluster's data and
    /// for persistent volumes, and the access: [`cleaned_up`] takes the results in this order.
    CleanUp,
}

/// What the names of the containers of pods begin with.
pub const POD_CONTAINER_PREFIX: &'static str = "k8s_";

/// The first step of a deletion.
pub open spec fn delete_begin() -> StepView<DeleteAction, ()> {
    (silent().push(info("Deleting k3s cluster..."@)), NextView::Go(DeleteAction::AskExists))
}

/// What is said before the rest of the cluster is removed.
pub open spec fn cleaning_up() -> StepView<DeleteAction, ()> {
    (
        silent().push(info("Cleaning up cluster resources..."@)),
        NextView::Go(DeleteAction::CleanUp),
    )
}

/// The step of a deletion that follows an action.
pub open spec fn delete_next(a: DeleteAction, ev: Event) -> StepView<DeleteAction, ()> {
    match a {
        DeleteAction::AskExists => if good(ev) {
            (
                silent().push(info("Removing k3s container..."@)),
                NextView::Go(DeleteAction::RemoveContainer),
            )
        } else {
            cleaning_up()
        },
        DeleteAction::RemoveContainer => cleaning_up(),
        DeleteAction::CleanUp => if good(ev) {
            (silent().push(success("K3s cluster deleted"@)), NextView::Done(()))
        } else {
            (silent(), NextView::Fail(reason(ev)))
        },
    }
}

/// Whatever comes of removing the container, the rest of the cluster is removed too.
pub proof fn law_deletion_always_cleans_up(ev: Event)
    ensures
        delete_next(DeleteAction::RemoveContainer, ev).1 == NextView::<DeleteAction, ()>::Go(
            DeleteAction::CleanUp,
        ),
{
}

/// A deletion removes a container that is there and then, in any case, the rest; it ends well only
/// where the rest was removed, and only then success is told.
pub proof fn law_deletion_removes_everything(a: DeleteAction, ev: Event)
    ensures
        delete_begin().1 == NextView::<DeleteAction, ()>::Go(DeleteAction::AskExists),
        delete_next(a, ev).1 matches NextView::Go(b) ==> match b {
            DeleteAction::AskExists => false,
            DeleteAction::RemoveContainer => a is AskExists && good(ev),
            DeleteAction::CleanUp => a is RemoveContainer || (a is AskExists && !good(ev)),
        },
        delete_next(a, ev).1 is Done <==> a is CleanUp && good(ev),
        delete_next(a, ev).1 is Fail <==> a is CleanUp && !good(ev),
        delete_next(a, ev).1 matches NextView::Fail(e) ==> e == reason(ev),
        tells_success(delete_next(a, ev).0) <==> delete_next(a, ev).1 is Done,
{
    if a is CleanUp && good(ev) {
        assert(delete_next(a, ev).0[0].0 == OutputType::Success);
    }
}

/// The first step of a deletion.
pub fn begin_delete() -> (r: Step<DeleteAction, ()>)
    ensures
        r@ == delete_begin(),
{
    let mut lines = no_lines();
    say(&mut lines, OutputLine::info("Deleting k3s cluster..."));
    Step { lines, next: Next::Go(DeleteAction::AskExists) }
}

fn begin_clean_up() -> (r: Step<DeleteAction, ()>)
    ensures
        r@ == cleaning_up(),
{
    let mut lines = no_lines();
    say(&mut lines, OutputLine::info("Cleaning up cluster resources..."));
    Step { lines, next: Next::Go(DeleteAction::CleanUp) }
}

/// The step of a deletion that follows an action.
pub fn delete(a: DeleteAction, ev: &Event) -> (r: Step<DeleteAction, ()>)
    ensures
        r@ == delete_next(a, *ev),
{
    let mut lines = no_lines();
    match a {
        DeleteAction::AskExists => if ev.is_good() {
            say(&mut lines, OutputLine::info("Removing k3s container..."));
            Step { lines, next: Next::Go(DeleteAction::RemoveContainer) }
        } else {
            begin_clean_up()
        },
        DeleteAction::RemoveContainer => begin_clean_up(),
        DeleteAction::CleanUp => if ev.is_good() {
            say(&mut lines, OutputLine::success("K3s cluster deleted"));
            Step { lines, next: Next::Done(()) }
        } else {
            fail(ev)
        },
    }
}

/// The last step of a deletion: the first failure among the results decides.
pub open spec fn delete_end(results: Seq<Result<(), String>>) -> StepView<DeleteAction, ()> {
    match first_failure(results) {
        Some(e) => (silent(), NextView::<DeleteAction, ()>::Fail(e)),
        None => (silent().push(success("K3s cluster deleted"@)), NextView::Done(())),
    }
}

/// A deletion ends well, and is said to, exactly where everything was removed; else it fails for the
/// first thing that was not.
pub proof fn law_deletion_is_complete(results: Seq<Result<(), String>>, k: int)
    ensures
        delete_end(results).1 is Done <==> forall|i: int|
            0 <= i < results.len() ==> (#[trigger] results[i]) is Ok,
        delete_end(results).1 is Go == false,
        tells_success(delete_end(results).0) <==> delete_end(results).1 is Done,
        0 <= k < results.len() && results[k] is Err && (forall|i: int|
            0 <= i < k ==> (#[trigger] results[i]) is Ok) ==> delete_end(results).1
            == NextView::<DeleteAction, ()>::Fail(results[k]->Err_0@),
{
    law_first_failure_decides(results, k);
    if delete_end(results).1 is Done {
        assert(delete_end(results).0[0].0 == OutputType::Success);
    }
}

/// The last step of a deletion: the first failure among the results decides.
pub fn cleaned_up(results: &Vec<Result<(), String>>) -> (r: Step<DeleteAction, ()>)
    ensures
        r@ == delete_end(results@),
        r.next is Done <==> forall|i: int| 0 <= i < results@.len() ==> (#[trigger] results@[i])
            is Ok,
{
    proof {
        law_first_failure_decides(results@, 0);
    }
    match find_failure(results) {
        Some(e) => Step { lines: no_lines(), next: Next::Fail(e) },
        None => {
            let mut lines = no_lines();
            say(&mut lines, OutputLine::success("K3s cluster deleted"));
            Step { lines, next: Next::Done(()) }
        },
    }
}

/// Every installation that failed is told, and nothing of those that did not; the agent's alone is only
/// warned about.
pub proof fn law_failed_installations_are_told(
    socat: Result<(), Trouble>,
    kubeconfig: Result<(), String>,
    agent: Result<(), Trouble>,
)
    ensures
        installations(socat, kubeconfig, agent).len() == (if socat is Err {
            1nat
        } else {
            0
        }) + (if kubeconfig is Err {
            1nat
        } else {
            0
        }) + (if agent is Err {
            1nat
        } else {
            0
        }),
        socat is Err ==> installations(socat, kubeconfig, agent)[0] == error(
            "Socat install failed: "@ + in_full(socat->Err_0@),
        ),
        agent is Err ==> installations(socat, kubeconfig, agent).last() == warning(
            "Agent install failed (stats will use fallback): "@ + in_full(agent->Err_0@),
        ),
        kubeconfig is Err ==> installations(socat, kubeconfig, agent).contains(
            error("Kubeconfig setup failed: "@ + kubeconfig->Err_0@),
        ),
{
    let s = installations(socat, kubeconfig, agent);
    if kubeconfig is Err {
        let k: int = if socat is Err {
            1
        } else {
            0
        };
        assert(s[k] == error("Kubeconfig setup failed: "@ + kubeconfig->Err_0@));
    }
}

} // verus!
