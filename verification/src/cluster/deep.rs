//! The deep verification tests: scripts of actions on a scratch namespace, and what their
//! results mean.

use vstd::prelude::*;
use crate::cluster::checks::{failed, failed_with, passed, verdict, Reply, Verdict, VerdictView};
use crate::cluster::config::ClusterConfig;
use crate::number::{decimal, i64_text, signed_decimal, u64_text};
use crate::text::{ends, has_sub, occurs_at, push_text, same, trim, trimmed, views};

verus! {

/// Namespace of the deep verification tests.
pub const DIAG_NAMESPACE: &'static str = "k3dev-diag";

/// A test that runs as a script.
#[derive(Clone, Copy, Debug, PartialEq, Eq, Structural)]
pub enum DeepScript {
    Setup,
    Dns,
    Connectivity,
    Volume,
}

/// A pod to create: one container, which sleeps for five minutes where `sleeps` is set.
#[derive(Clone, Copy, Debug)]
pub struct PodTemplate {
    pub name: &'static str,
    pub app_label: Option<&'static str>,
    pub container: &'static str,
    pub image: &'static str,
    pub sleeps: bool,
    pub port: Option<u16>,
    pub claim: Option<&'static str>,
    pub restart_never: bool,
}

/// A service to create: it forwards a port to the pods with an `app` label.
#[derive(Clone, Copy, Debug)]
pub struct ServiceTemplate {
    pub name: &'static str,
    pub app_label: &'static str,
    pub port: u16,
}

/// A volume claim to create.
#[derive(Clone, Copy, Debug)]
pub struct ClaimTemplate {
    pub name: &'static str,
    pub access_mode: &'static str,
    pub storage: &'static str,
}

/// A command to run in a pod.
#[derive(Clone, Copy, Debug)]
pub enum DeepCommand {
    /// Look up the API server's name.
    LookUp,
    /// Fetch the start page of the test service.
    Fetch,
    /// Write a file on the volume.
    Write,
    /// Read it back.
    Read,
}

/// One step of a script.
#[derive(Clone, Copy, Debug)]
pub enum DeepAction {
    Connect,
    DeleteNamespace(&'static str),
    AwaitNamespaceGone(&'static str, u64),
    CreateNamespace(&'static str),
    CreatePod(PodTemplate),
    CreateService(ServiceTemplate),
    CreateClaim(ClaimTemplate),
    AwaitPod(&'static str, u64),
    Exec(&'static str, DeepCommand),
    DeletePod(&'static str),
    DeleteService(&'static str),
    DeleteClaim(&'static str),
}

/// What came of the last step.
#[derive(Clone, Debug)]
pub enum DeepEvent {
    Done,
    Failed(String),
    Ran { exit_code: i32, stdout: String, stderr: String },
}

/// What to do next.
#[derive(Debug)]
pub enum DeepNext {
    Do(DeepAction),
    Finish(Verdict),
}

/// A script in progress: `pos` is the step that is being performed.
#[derive(Debug)]
pub struct DeepRun {
    pub script: DeepScript,
    pub pos: usize,
    pub outcome: Option<Verdict>,
}

// ---------------------------------------------------------------------------
// Scripts
// ---------------------------------------------------------------------------

/// A pod that sleeps until a command is run in it.
pub open spec fn sleeping_pod(name: &'static str, claim: Option<&'static str>) -> PodTemplate {
    PodTemplate {
        name,
        app_label: None,
        container: "busybox",
        image: "busybox:1.36",
        sleeps: true,
        port: None,
        claim,
        restart_never: true,
    }
}

/// The web server of the connectivity test.
pub open spec fn nginx_pod() -> PodTemplate {
    PodTemplate {
        name: "diag-nginx",
        app_label: Some("diag-nginx"),
        container: "nginx",
        image: "nginx:alpine",
        sleeps: false,
        port: Some(80),
        claim: None,
        restart_never: false,
    }
}

/// The service in front of it.
pub open spec fn nginx_service() -> ServiceTemplate {
    ServiceTemplate { name: "diag-nginx", app_label: "diag-nginx", port: 80 }
}

/// The claim of the volume test.
pub open spec fn diag_claim() -> ClaimTemplate {
    ClaimTemplate { name: "diag-pvc", access_mode: "ReadWriteOnce", storage: "64Mi" }
}

/// How many steps a script has.
pub open spec fn script_len(s: DeepScript) -> int {
    match s {
        DeepScript::Setup => 4,
        DeepScript::Dns => 5,
        DeepScript::Connectivity => 10,
        DeepScript::Volume => 8,
    }
}

/// Where the steps begin that remove what the script created.
pub open spec fn tail_start(s: DeepScript) -> int {
    match s {
        DeepScript::Setup => 4,
        DeepScript::Dns => 4,
        DeepScript::Connectivity => 7,
        DeepScript::Volume => 6,
    }
}

/// Step `k` of a script.
pub open spec fn script_step(s: DeepScript, k: int) -> DeepAction {
    match s {
        DeepScript::Setup => if k == 0 {
            DeepAction::Connect
        } else if k == 1 {
            DeepAction::DeleteNamespace("k3dev-diag")
        } else if k == 2 {
            DeepAction::AwaitNamespaceGone("k3dev-diag", 30)
        } else {
            DeepAction::CreateNamespace("k3dev-diag")
        },
        DeepScript::Dns => if k == 0 {
            DeepAction::Connect
        } else if k == 1 {
            DeepAction::CreatePod(sleeping_pod("diag-dns", None))
        } else if k == 2 {
            DeepAction::AwaitPod("diag-dns", 60)
        } else if k == 3 {
            DeepAction::Exec("diag-dns", DeepCommand::LookUp)
        } else {
            DeepAction::DeletePod("diag-dns")
        },
        DeepScript::Connectivity => if k == 0 {
            DeepAction::Connect
        } else if k == 1 {
            DeepAction::CreatePod(nginx_pod())
        } else if k == 2 {
            DeepAction::CreateService(nginx_service())
        } else if k == 3 {
            DeepAction::AwaitPod("diag-nginx", 60)
        } else if k == 4 {
            DeepAction::CreatePod(sleeping_pod("diag-client", None))
        } else if k == 5 {
            DeepAction::AwaitPod("diag-client", 60)
        } else if k == 6 {
            DeepAction::Exec("diag-client", DeepCommand::Fetch)
        } else if k == 7 {
            DeepAction::DeletePod("diag-nginx")
        } else if k == 8 {
            DeepAction::DeletePod("diag-client")
        } else {
            DeepAction::DeleteService("diag-nginx")
        },
        DeepScript::Volume => if k == 0 {
            DeepAction::Connect
        } else if k == 1 {
            DeepAction::CreateClaim(diag_claim())
        } else if k == 2 {
            DeepAction::CreatePod(sleeping_pod("diag-volume", Some("diag-pvc")))
        } else if k == 3 {
            DeepAction::AwaitPod("diag-volume", 90)
        } else if k == 4 {
            DeepAction::Exec("diag-volume", DeepCommand::Write)
        } else if k == 5 {
            DeepAction::Exec("diag-volume", DeepCommand::Read)
        } else if k == 6 {
            DeepAction::DeletePod("diag-volume")
        } else {
            DeepAction::DeleteClaim("diag-pvc")
        },
    }
}

/// What stands before the error text where a step's failure ends the test; nothing where the
/// failure is of no consequence.
pub open spec fn failure_prefix(a: DeepAction) -> Option<Seq<char>> {
    match a {
        DeepAction::Connect => Some("client init failed: "@),
        DeepAction::CreateNamespace(_) => Some("failed to create namespace: "@),
        DeepAction::CreatePod(p) => if p.name@ == "diag-dns"@ {
            Some("failed to create dns test pod: "@)
        } else if p.name@ == "diag-nginx"@ {
            Some("failed to create nginx pod: "@)
        } else if p.name@ == "diag-client"@ {
            Some("failed to create client pod: "@)
        } else {
            Some("failed to create volume test pod: "@)
        },
        DeepAction::CreateService(_) => Some("failed to create nginx service: "@),
        DeepAction::CreateClaim(_) => Some("failed to create PVC: "@),
        DeepAction::AwaitPod(_, _) => Some(Seq::empty()),
        DeepAction::AwaitNamespaceGone(_, _) => Some(Seq::empty()),
        DeepAction::Exec(_, DeepCommand::Write) => Some("write exec failed: "@),
        DeepAction::Exec(_, DeepCommand::Read) => Some("read exec failed: "@),
        DeepAction::Exec(_, _) => Some("exec failed: "@),
        DeepAction::DeleteNamespace(_) => None,
        DeepAction::DeletePod(_) => None,
        DeepAction::DeleteService(_) => None,
        DeepAction::DeleteClaim(_) => None,
    }
}

/// What the result of a command decides; nothing where the test goes on.
pub open spec fn command_verdict(c: DeepCommand, code: i32, stdout: Seq<char>, stderr: Seq<char>) -> Option<
    VerdictView,
> {
    match c {
        DeepCommand::LookUp => if code == 0 {
            Some(Ok(Some("kubernetes.default resolved"@)))
        } else {
            Some(
                Err(
                    "nslookup failed (exit "@ + signed_decimal(code as int) + "): "@ + trimmed(
                        stderr,
                    ),
                ),
            )
        },
        DeepCommand::Fetch => if code == 0 {
            Some(Ok(Some("pod-to-service OK"@)))
        } else {
            Some(
                Err("wget failed (exit "@ + signed_decimal(code as int) + "): "@ + trimmed(stderr)),
            )
        },
        DeepCommand::Write => if code == 0 {
            None
        } else {
            Some(Err("write failed: "@ + trimmed(stderr)))
        },
        DeepCommand::Read => if code == 0 && trimmed(stdout) == "k3dev-diag-ok"@ {
            Some(Ok(Some("write/read OK"@)))
        } else {
            Some(Err("read-back mismatch: got '"@ + trimmed(stdout) + "'"@))
        },
    }
}

/// What a script that reaches its end without a command's verdict reports.
pub open spec fn plain_end(s: DeepScript) -> VerdictView {
    match s {
        DeepScript::Setup => Ok(Some("k3dev-diag"@)),
        _ => Ok(None),
    }
}

/// The model of a script in progress.
pub struct DeepState {
    pub script: DeepScript,
    pub pos: int,
    pub outcome: Option<VerdictView>,
}

/// The model of what comes next.
pub enum DeepNextView {
    Do(DeepAction),
    Finish(VerdictView),
}

impl View for DeepRun {
    type V = DeepState;

    open spec fn view(&self) -> DeepState {
        DeepState {
            script: self.script,
            pos: self.pos as int,
            outcome: match self.outcome {
                Some(v) => Some(verdict(v)),
                None => None,
            },
        }
    }
}

impl View for DeepNext {
    type V = DeepNextView;

    open spec fn view(&self) -> DeepNextView {
        match *self {
            DeepNext::Do(a) => DeepNextView::Do(a),
            DeepNext::Finish(v) => DeepNextView::Finish(verdict(v)),
        }
    }
}

/// What comes at position `pos`, or the end.
pub open spec fn arrive(st: DeepState) -> DeepNextView {
    if st.pos >= script_len(st.script) {
        DeepNextView::Finish(
            match st.outcome {
                Some(v) => v,
                None => plain_end(st.script),
            },
        )
    } else {
        DeepNextView::Do(script_step(st.script, st.pos))
    }
}

/// The state after an event, where the script goes on.
pub open spec fn deep_after(st: DeepState, ev: DeepEvent) -> DeepState {
    let step = script_step(st.script, st.pos);
    match ev {
        DeepEvent::Ran { exit_code, stdout, stderr } => match step {
            DeepAction::Exec(_, c) => match command_verdict(c, exit_code, stdout@, stderr@) {
                Some(v) => DeepState { pos: tail_start(st.script), outcome: Some(v), ..st },
                None => DeepState { pos: st.pos + 1, ..st },
            },
            _ => DeepState { pos: st.pos + 1, ..st },
        },
        _ => DeepState { pos: st.pos + 1, ..st },
    }
}

/// What comes next after an event.
pub open spec fn deep_next(st: DeepState, ev: DeepEvent) -> DeepNextView {
    let prefix = failure_prefix(script_step(st.script, st.pos));
    if ev is Failed && prefix is Some {
        DeepNextView::Finish(Err(prefix->0 + ev->Failed_0@))
    } else {
        arrive(deep_after(st, ev))
    }
}

// ---------------------------------------------------------------------------
// Laws
// ---------------------------------------------------------------------------

/// Whether `b` removes what `a` creates.
pub open spec fn removes(a: DeepAction, b: DeepAction) -> bool {
    match (a, b) {
        (DeepAction::CreatePod(p), DeepAction::DeletePod(n)) => p.name@ == n@,
        (DeepAction::CreateService(s), DeepAction::DeleteService(n)) => s.name@ == n@,
        (DeepAction::CreateClaim(c), DeepAction::DeleteClaim(n)) => c.name@ == n@,
        _ => false,
    }
}

/// Whether a step creates a pod, a service or a claim.
pub open spec fn creates(a: DeepAction) -> bool {
    a is CreatePod || a is CreateService || a is CreateClaim
}

/// Everything that a script creates, one of its last steps removes.
pub proof fn law_scripts_clean_up(s: DeepScript, k: int)
    requires
        0 <= k < script_len(s),
        creates(script_step(s, k)),
    ensures
        k < tail_start(s),
        exists|j: int|
            tail_start(s) <= j < script_len(s) && removes(script_step(s, k), #[trigger] script_step(
                s,
                j,
            )),
{
    match s {
        DeepScript::Setup => {},
        DeepScript::Dns => {
            assert(removes(script_step(s, k), script_step(s, 4)));
        },
        DeepScript::Connectivity => {
            if k == 1 {
                assert(removes(script_step(s, k), script_step(s, 7)));
            } else if k == 2 {
                assert(removes(script_step(s, k), script_step(s, 9)));
            } else {
                assert(removes(script_step(s, k), script_step(s, 8)));
            }
        },
        DeepScript::Volume => {
            if k == 1 {
                assert(removes(script_step(s, k), script_step(s, 7)));
            } else {
                assert(removes(script_step(s, k), script_step(s, 6)));
            }
        },
    }
}

/// The removing steps end no test: once a command has decided, the script runs to its end and
/// reports what the command decided.
pub proof fn law_decided_scripts_finish(st: DeepState, ev: DeepEvent)
    requires
        st.outcome is Some,
        tail_start(st.script) <= st.pos < script_len(st.script),
    ensures
        !(ev is Failed && failure_prefix(script_step(st.script, st.pos)) is Some),
        deep_after(st, ev).outcome == st.outcome,
        deep_after(st, ev).pos == st.pos + 1,
        st.pos + 1 == script_len(st.script) ==> deep_next(st, ev) == DeepNextView::Finish(
            st.outcome->0,
        ),
{
}

/// Every event moves a script forward.
pub proof fn law_scripts_progress(st: DeepState, ev: DeepEvent)
    requires
        0 <= st.pos < script_len(st.script),
    ensures
        st.pos < deep_after(st, ev).pos <= script_len(st.script),
{
}

// ---------------------------------------------------------------------------
// Functions
// ---------------------------------------------------------------------------

/// How many steps a script has.
fn length(s: DeepScript) -> (r: usize)
    ensures
        r == script_len(s),
{
    match s {
        DeepScript::Setup => 4,
        DeepScript::Dns => 5,
        DeepScript::Connectivity => 10,
        DeepScript::Volume => 8,
    }
}

fn sleeping(name: &'static str, claim: Option<&'static str>) -> (r: PodTemplate)
    ensures
        r == sleeping_pod(name, claim),
{
    PodTemplate {
        name,
        app_label: None,
        container: "busybox",
        image: "busybox:1.36",
        sleeps: true,
        port: None,
        claim,
        restart_never: true,
    }
}

/// Step `k` of a script.
pub fn action_at(s: DeepScript, k: usize) -> (r: DeepAction)
    ensures
        r == script_step(s, k as int),
{
    match s {
        DeepScript::Setup => if k == 0 {
            DeepAction::Connect
        } else if k == 1 {
            DeepAction::DeleteNamespace("k3dev-diag")
        } else if k == 2 {
            DeepAction::AwaitNamespaceGone("k3dev-diag", 30)
        } else {
            DeepAction::CreateNamespace("k3dev-diag")
        },
        DeepScript::Dns => if k == 0 {
            DeepAction::Connect
        } else if k == 1 {
            DeepAction::CreatePod(sleeping("diag-dns", None))
        } else if k == 2 {
            DeepAction::AwaitPod("diag-dns", 60)
        } else if k == 3 {
            DeepAction::Exec("diag-dns", DeepCommand::LookUp)
        } else {
            DeepAction::DeletePod("diag-dns")
        },
        DeepScript::Connectivity => if k == 0 {
            DeepAction::Connect
        } else if k == 1 {
            DeepAction::CreatePod(
                PodTemplate {
                    name: "diag-nginx",
                    app_label: Some("diag-nginx"),
                    container: "nginx",
                    image: "nginx:alpine",
                    sleeps: false,
                    port: Some(80),
                    claim: None,
                    restart_never: false,
                },
            )
        } else if k == 2 {
            DeepAction::CreateService(
                ServiceTemplate { name: "diag-nginx", app_label: "diag-nginx", port: 80 },
            )
        } else if k == 3 {
            DeepAction::AwaitPod("diag-nginx", 60)
        } else if k == 4 {
            DeepAction::CreatePod(sleeping("diag-client", None))
        } else if k == 5 {
            DeepAction::AwaitPod("diag-client", 60)
        } else if k == 6 {
            DeepAction::Exec("diag-client", DeepCommand::Fetch)
        } else if k == 7 {
            DeepAction::DeletePod("diag-nginx")
        } else if k == 8 {
            DeepAction::DeletePod("diag-client")
        } else {
            DeepAction::DeleteService("diag-nginx")
        },
        DeepScript::Volume => if k == 0 {
            DeepAction::Connect
        } else if k == 1 {
            DeepAction::CreateClaim(
                ClaimTemplate { name: "diag-pvc", access_mode: "ReadWriteOnce", storage: "64Mi" },
            )
        } else if k == 2 {
            DeepAction::CreatePod(sleeping("diag-volume", Some("diag-pvc")))
        } else if k == 3 {
            DeepAction::AwaitPod("diag-volume", 90)
        } else if k == 4 {
            DeepAction::Exec("diag-volume", DeepCommand::Write)
        } else if k == 5 {
            DeepAction::Exec("diag-volume", DeepCommand::Read)
        } else if k == 6 {
            DeepAction::DeletePod("diag-volume")
        } else {
            DeepAction::DeleteClaim("diag-pvc")
        },
    }
}

fn prefix_of(a: &DeepAction) -> (r: Option<&'static str>)
    ensures
        match r {
            Some(s) => failure_prefix(*a) == Some(s@),
            None => failure_prefix(*a) is None,
        },
{
    match a {
        DeepAction::Connect => Some("client init failed: "),
        DeepAction::CreateNamespace(_) => Some("failed to create namespace: "),
        DeepAction::CreatePod(p) => if same(p.name, "diag-dns") {
            Some("failed to create dns test pod: ")
        } else if same(p.name, "diag-nginx") {
            Some("failed to create nginx pod: ")
        } else if same(p.name, "diag-client") {
            Some("failed to create client pod: ")
        } else {
            Some("failed to create volume test pod: ")
        },
        DeepAction::CreateService(_) => Some("failed to create nginx service: "),
        DeepAction::CreateClaim(_) => Some("failed to create PVC: "),
        DeepAction::AwaitPod(_, _) => {
            proof {
                reveal_strlit("");
            }
            assert(""@ =~= Seq::<char>::empty());
            Some("")
        },
        DeepAction::AwaitNamespaceGone(_, _) => {
            proof {
                reveal_strlit("");
            }
            assert(""@ =~= Seq::<char>::empty());
            Some("")
        },
        DeepAction::Exec(_, c) => match c {
            DeepCommand::Write => Some("write exec failed: "),
            DeepCommand::Read => Some("read exec failed: "),
            _ => Some("exec failed: "),
        },
        _ => None,
    }
}

/// What the result of a command decides; nothing where the test goes on.
pub fn judge_command(c: &DeepCommand, code: i32, stdout: &str, stderr: &str) -> (r: Option<Verdict>)
    ensures
        match r {
            Some(v) => command_verdict(*c, code, stdout@, stderr@) == Some(verdict(v)),
            None => command_verdict(*c, code, stdout@, stderr@) is None,
        },
{
    match c {
        DeepCommand::LookUp => if code == 0 {
            Some(passed("kubernetes.default resolved"))
        } else {
            let mut s = "nslookup failed (exit ".to_owned();
            s.append(i64_text(code as i64).as_str());
            s.append("): ");
            s.append(trim(stderr).as_str());
            Some(Err(s))
        },
        DeepCommand::Fetch => if code == 0 {
            Some(passed("pod-to-service OK"))
        } else {
            let mut s = "wget failed (exit ".to_owned();
            s.append(i64_text(code as i64).as_str());
            s.append("): ");
            s.append(trim(stderr).as_str());
            Some(Err(s))
        },
        DeepCommand::Write => if code == 0 {
            None
        } else {
            let t = trim(stderr);
            Some(failed_with("write failed: ", t.as_str()))
        },
        DeepCommand::Read => {
            let t = trim(stdout);
            if code == 0 && same(t.as_str(), "k3dev-diag-ok") {
                Some(passed("write/read OK"))
            } else {
                let mut s = "read-back mismatch: got '".to_owned();
                s.append(t.as_str());
                s.append("'");
                Some(Err(s))
            }
        },
    }
}

impl DeepRun {
    /// A script at its start, and its first step.
    pub fn start(script: DeepScript) -> (r: (DeepRun, DeepAction))
        ensures
            r.0@ == (DeepState { script, pos: 0, outcome: None }),
            r.1 == script_step(script, 0),
    {
        (DeepRun { script, pos: 0, outcome: None }, action_at(script, 0))
    }

    /// Takes what came of the current step and says what to do next.
    pub fn next(self, ev: DeepEvent) -> (r: (DeepRun, DeepNext))
        requires
            self.pos < script_len(self.script),
        ensures
            r.1@ == deep_next(self@, ev),
            r.1@ is Do ==> r.0@ == deep_after(self@, ev) && r.0.pos < script_len(r.0.script),
    {
        let DeepRun { script, pos, outcome } = self;
        let action = action_at(script, pos);
        let mut new_pos: usize = pos + 1;
        let mut new_outcome = outcome;
        match ev {
            DeepEvent::Failed(e) => {
                if let Some(prefix) = prefix_of(&action) {
                    return (
                        DeepRun { script, pos, outcome: new_outcome },
                        DeepNext::Finish(failed_with(prefix, e.as_str())),
                    );
                }
            },
            DeepEvent::Ran { exit_code, stdout, stderr } => {
                if let DeepAction::Exec(_, c) = action {
                    if let Some(v) = judge_command(&c, exit_code, stdout.as_str(), stderr.as_str()) {
                        new_outcome = Some(v);
                        new_pos = match script {
                            DeepScript::Setup => 4,
                            DeepScript::Dns => 4,
                            DeepScript::Connectivity => 7,
                            DeepScript::Volume => 6,
                        };
                    }
                }
            },
            DeepEvent::Done => {},
        }
        if new_pos >= length(script) {
            let v = match new_outcome {
                Some(v) => v,
                None => match script {
                    DeepScript::Setup => passed("k3dev-diag"),
                    _ => Ok(None),
                },
            };
            (DeepRun { script, pos: new_pos, outcome: None }, DeepNext::Finish(v))
        } else {
            (
                DeepRun { script, pos: new_pos, outcome: new_outcome },
                DeepNext::Do(action_at(script, new_pos)),
            )
        }
    }
}

/// The arguments of the commands that run without a shell.
pub open spec fn command_args(c: DeepCommand) -> Seq<Seq<char>> {
    match c {
        DeepCommand::LookUp => seq!["nslookup"@, "kubernetes.default.svc.cluster.local"@],
        DeepCommand::Fetch => seq![
            "wget"@,
            "-q"@,
            "-O"@,
            "-"@,
            "--timeout=10"@,
            "http://diag-nginx.k3dev-diag.svc.cluster.local"@,
        ],
        DeepCommand::Write => seq!["sh"@, "-c"@, "echo 'k3dev-diag-ok' > /data/test.txt"@],
        DeepCommand::Read => seq!["sh"@, "-c"@, "cat /data/test.txt"@],
    }
}

/// The arguments of a command; those of the volume test go through a shell.
pub fn command_line(c: &DeepCommand) -> (r: Vec<String>)
    ensures
        views(r@) == command_args(*c),
{
    let mut v: Vec<String> = Vec::new();
    assert(views(v@) =~= Seq::<Seq<char>>::empty());
    match c {
        DeepCommand::LookUp => {
            push_text(&mut v, "nslookup");
            push_text(&mut v, "kubernetes.default.svc.cluster.local");
        },
        DeepCommand::Fetch => {
            push_text(&mut v, "wget");
            push_text(&mut v, "-q");
            push_text(&mut v, "-O");
            push_text(&mut v, "-");
            push_text(&mut v, "--timeout=10");
            push_text(&mut v, "http://diag-nginx.k3dev-diag.svc.cluster.local");
        },
        DeepCommand::Write => {
            push_text(&mut v, "sh");
            push_text(&mut v, "-c");
            push_text(&mut v, "echo 'k3dev-diag-ok' > /data/test.txt");
        },
        DeepCommand::Read => {
            push_text(&mut v, "sh");
            push_text(&mut v, "-c");
            push_text(&mut v, "cat /data/test.txt");
        },
    }
    v
}

/// How a wait goes on.
#[derive(Debug)]
pub enum WaitStep {
    /// What was waited for is there.
    Ready,
    /// Ask again after this many seconds.
    Again(u64),
    /// The time is over.
    Expired(String),
}

/// Whether more than `secs` seconds have gone by.
pub open spec fn expired(elapsed_nanos: nat, secs: nat) -> bool {
    elapsed_nanos > secs * 1_000_000_000
}

fn is_expired(elapsed_nanos: u128, secs: u64) -> (r: bool)
    ensures
        r == expired(elapsed_nanos as nat, secs as nat),
{
    elapsed_nanos > (secs as u128) * 1_000_000_000
}

/// Whether a wait for a pod is over before the next look at it.
pub fn pod_wait_expired(name: &str, elapsed_nanos: u128, timeout_secs: u64) -> (r: Option<String>)
    ensures
        r is Some == expired(elapsed_nanos as nat, timeout_secs as nat),
        r matches Some(m) ==> m@ == "pod '"@ + name@ + "' not ready within "@ + decimal(
            timeout_secs as nat,
        ) + "s"@,
{
    if is_expired(elapsed_nanos, timeout_secs) {
        let mut s = "pod '".to_owned();
        s.append(name);
        s.append("' not ready within ");
        s.append(u64_text(timeout_secs).as_str());
        s.append("s");
        Some(s)
    } else {
        None
    }
}

/// What a look at the pod decides: it must run with all containers ready.
pub fn pod_wait_step(pod: &Option<(String, bool)>) -> (r: WaitStep)
    ensures
        r is Ready <==> *pod is Some && ((*pod)->0).0@ == "Running"@ && ((*pod)->0).1,
        match *pod {
            Some(p) => if p.0@ == "Running"@ && p.1 {
                r is Ready
            } else {
                r == WaitStep::Again(2)
            },
            None => r == WaitStep::Again(2),
        },
{
    match pod {
        Some(p) => if same(p.0.as_str(), "Running") && p.1 {
            WaitStep::Ready
        } else {
            WaitStep::Again(2)
        },
        None => WaitStep::Again(2),
    }
}

/// Whether the wait for the old namespace to go is over before the next look at it.
pub fn namespace_wait_expired(elapsed_nanos: u128) -> (r: Option<String>)
    ensures
        r is Some == expired(elapsed_nanos as nat, 30),
        r matches Some(m) ==> m@ == "timed out waiting for stale namespace deletion"@,
{
    if is_expired(elapsed_nanos, 30) {
        Some("timed out waiting for stale namespace deletion".to_owned())
    } else {
        None
    }
}

/// What the deletion of the namespace came to.
#[derive(Clone, Debug)]
pub enum DeletionReply {
    Unavailable(String),
    Deleted,
    NotFound,
    Failed(String),
}

pub open spec fn cleanup_verdict(d: DeletionReply) -> VerdictView {
    match d {
        DeletionReply::Unavailable(e) => Err("client init failed: "@ + e@),
        DeletionReply::Deleted => Ok(Some("deleted k3dev-diag"@)),
        DeletionReply::NotFound => Ok(Some("already clean"@)),
        DeletionReply::Failed(e) => Err("failed to delete namespace: "@ + e@),
    }
}

/// Whether the scratch namespace is gone.
pub fn check_cleanup(d: &DeletionReply) -> (r: Verdict)
    ensures
        verdict(r) == cleanup_verdict(*d),
{
    match d {
        DeletionReply::Unavailable(e) => failed_with("client init failed: ", e.as_str()),
        DeletionReply::Deleted => passed("deleted k3dev-diag"),
        DeletionReply::NotFound => passed("already clean"),
        DeletionReply::Failed(e) => failed_with("failed to delete namespace: ", e.as_str()),
    }
}

/// The address at which the ports of the cluster are published.
pub open spec fn published_host(remote: Option<Option<String>>) -> Seq<char> {
    match remote {
        Some(Some(h)) => h@,
        _ => "127.0.0.1"@,
    }
}

/// The address at which the ports of the cluster are published: that of a remote Docker host
/// where one is known, else this machine.
pub fn published_address(remote: &Option<Option<String>>) -> (r: String)
    ensures
        r@ == published_host(*remote),
{
    match remote {
        Some(Some(h)) => h.clone(),
        _ => "127.0.0.1".to_owned(),
    }
}

/// The address of the HTTP port.
pub fn host_http_url(config: &ClusterConfig, remote: &Option<Option<String>>) -> (r: String)
    ensures
        r@ == "http://"@ + published_host(*remote) + ":"@ + decimal(config.http_port as nat),
{
    let mut s = "http://".to_owned();
    s.append(published_address(remote).as_str());
    s.append(":");
    s.append(u64_text(config.http_port as u64).as_str());
    s
}

pub open spec fn host_http_verdict(url: Seq<char>, status: Reply<u16>) -> VerdictView {
    match status {
        Reply::Unavailable(e) => Err("HTTP client error: "@ + e@),
        Reply::Failed(e) => Err("HTTP GET "@ + url + " failed: "@ + e@),
        Reply::Got(n) => Ok(Some("HTTP "@ + decimal(n as nat))),
    }
}

/// Whether anything answers on the HTTP port: every status proves that the path works.
pub fn check_host_http(url: &str, status: &Reply<u16>) -> (r: Verdict)
    ensures
        verdict(r) == host_http_verdict(url@, *status),
{
    match status {
        Reply::Unavailable(e) => failed_with("HTTP client error: ", e.as_str()),
        Reply::Failed(e) => {
            let mut s = "HTTP GET ".to_owned();
            s.append(url);
            s.append(" failed: ");
            s.append(e.as_str());
            Err(s)
        },
        Reply::Got(n) => {
            let mut s = "HTTP ".to_owned();
            s.append(u64_text(*n as u64).as_str());
            Ok(Some(s))
        },
    }
}

pub open spec fn docker_socket_verdict(out: Reply<String>) -> VerdictView {
    match out {
        Reply::Unavailable(e) => Err(e@),
        Reply::Failed(e) => Err("exec failed: "@ + e@),
        Reply::Got(s) => if trimmed(s@) == "ok"@ {
            Ok(Some("socket mounted"@))
        } else {
            Err("Docker socket not accessible inside k3s container"@)
        },
    }
}

/// Whether the Docker socket is mounted in the container.
pub fn check_docker_in_container(out: &Reply<String>) -> (r: Verdict)
    ensures
        verdict(r) == docker_socket_verdict(*out),
{
    match out {
        Reply::Unavailable(e) => Err(e.clone()),
        Reply::Failed(e) => failed_with("exec failed: ", e.as_str()),
        Reply::Got(s) => {
            let t = trim(s.as_str());
            if same(t.as_str(), "ok") {
                passed("socket mounted")
            } else {
                failed("Docker socket not accessible inside k3s container")
            }
        },
    }
}

pub open spec fn runtime_socket_verdict(out: Option<Reply<String>>) -> VerdictView {
    match out {
        None => Ok(Some("not applicable (Linux uses direct socket)"@)),
        Some(Reply::Unavailable(e)) => Err(e@),
        Some(Reply::Failed(e)) => Err("exec failed: "@ + e@),
        Some(Reply::Got(s)) => if trimmed(s@) == "ok"@ {
            Ok(Some("runtime socket accessible"@))
        } else {
            Err("/proc/1/root/run/docker.sock not accessible (Docker Desktop VM issue)"@)
        },
    }
}

/// Whether the runtime socket of Docker Desktop is there; `None` on systems without one.
pub fn check_runtime_socket(out: &Option<Reply<String>>) -> (r: Verdict)
    ensures
        verdict(r) == runtime_socket_verdict(*out),
{
    match out {
        None => passed("not applicable (Linux uses direct socket)"),
        Some(Reply::Unavailable(e)) => Err(e.clone()),
        Some(Reply::Failed(e)) => failed_with("exec failed: ", e.as_str()),
        Some(Reply::Got(s)) => {
            let t = trim(s.as_str());
            if same(t.as_str(), "ok") {
                passed("runtime socket accessible")
            } else {
                failed("/proc/1/root/run/docker.sock not accessible (Docker Desktop VM issue)")
            }
        },
    }
}

/// A command that ends with an error fails its test. A look-up and a fetch that end well pass, a write
/// that ends well decides nothing, and a read passes exactly where it gives back what is written.
pub proof fn law_commands_decide(c: DeepCommand, code: i32, stdout: Seq<char>, stderr: Seq<char>)
    ensures
        code != 0 ==> (command_verdict(c, code, stdout, stderr) matches Some(v) && v is Err),
        code == 0 && (c is LookUp || c is Fetch) ==> (command_verdict(c, code, stdout, stderr)
            matches Some(v) && v is Ok),
        code == 0 && c is Write ==> command_verdict(c, code, stdout, stderr) is None,
        c is Read ==> (command_verdict(c, code, stdout, stderr) matches Some(v) && (v is Ok <==> code
            == 0 && trimmed(stdout) == "k3dev-diag-ok"@)),
        has_sub(command_args(DeepCommand::Write)[2], "k3dev-diag-ok"@),
{
    let w = command_args(DeepCommand::Write)[2];
    reveal_strlit("echo 'k3dev-diag-ok' > /data/test.txt");
    reveal_strlit("k3dev-diag-ok");
    assert(w.subrange(6, 19) =~= "k3dev-diag-ok"@);
    assert(occurs_at(w, "k3dev-diag-ok"@, 6));
}

/// What is written on the volume is read from the same place.
pub proof fn law_volume_is_read_where_it_is_written()
    ensures
        ends(command_args(DeepCommand::Write)[2], "/data/test.txt"@),
        ends(command_args(DeepCommand::Read)[2], "/data/test.txt"@),
{
    let w = command_args(DeepCommand::Write)[2];
    let r = command_args(DeepCommand::Read)[2];
    reveal_strlit("echo 'k3dev-diag-ok' > /data/test.txt");
    reveal_strlit("cat /data/test.txt");
    reveal_strlit("/data/test.txt");
    assert(w.subrange(w.len() - 14, w.len() as int) =~= "/data/test.txt"@);
    assert(r.subrange(r.len() - 14, r.len() as int) =~= "/data/test.txt"@);
}

/// A script first reaches the cluster, and runs a command only in a pod that it has created and then
/// waited for.
pub proof fn law_commands_run_in_ready_pods(s: DeepScript, k: int)
    requires
        0 <= k < script_len(s),
    ensures
        script_step(s, 0) is Connect,
        script_step(s, k) matches DeepAction::Exec(n, _) ==> exists|i: int, j: int|
            0 < i < j < k && (#[trigger] script_step(s, i) matches DeepAction::CreatePod(p) && p.name
                == n) && (#[trigger] script_step(s, j) matches DeepAction::AwaitPod(m, secs) && m == n
                && secs > 0),
{
    match s {
        DeepScript::Setup => {},
        DeepScript::Dns => {
            assert(script_step(s, 1) is CreatePod && script_step(s, 2) is AwaitPod);
        },
        DeepScript::Connectivity => {
            assert(script_step(s, 4) is CreatePod && script_step(s, 5) is AwaitPod);
        },
        DeepScript::Volume => {
            assert(script_step(s, 2) is CreatePod && script_step(s, 3) is AwaitPod);
        },
    }
}

/// A step that fails ends its test with the reason, unless it only removes something.
pub proof fn law_failed_steps_fail_the_test(st: DeepState, ev: DeepEvent)
    requires
        0 <= st.pos < script_len(st.script),
        ev is Failed,
    ensures
        ({
            let step = script_step(st.script, st.pos);
            let removing = step is DeleteNamespace || step is DeletePod || step is DeleteService
                || step is DeleteClaim;
            &&& !removing ==> (deep_next(st, ev) matches DeepNextView::Finish(v) && (v matches Err(e)
                && ends(e, ev->Failed_0@)))
            &&& removing ==> deep_next(st, ev) == arrive(DeepState { pos: st.pos + 1, ..st })
        }),
{
    let step = script_step(st.script, st.pos);
    if let Some(p) = failure_prefix(step) {
        let e = p + ev->Failed_0@;
        assert(e.subrange(p.len() as int, e.len() as int) =~= ev->Failed_0@);
    }
}

/// What a command decides is what its test comes to in the end.
pub proof fn law_scripts_report_the_command(st: DeepState, ev: DeepEvent)
    requires
        0 <= st.pos < script_len(st.script),
    ensures
        ev matches DeepEvent::Ran { exit_code, stdout, stderr } ==> (script_step(st.script, st.pos)
            matches DeepAction::Exec(_, c) ==> (command_verdict(c, exit_code, stdout@, stderr@)
            matches Some(v) ==> deep_after(st, ev).outcome == Some(v))),
        ev is Done ==> deep_after(st, ev).outcome == st.outcome && deep_after(st, ev).pos == st.pos
            + 1,
{
}

/// A wait is over only once its seconds are, and then it is.
pub proof fn law_waits_expire(elapsed: nat, more: nat, secs: nat)
    ensures
        expired(elapsed, secs) ==> expired(elapsed + more, secs),
        elapsed / 1_000_000_000 < secs ==> !expired(elapsed, secs),
        elapsed / 1_000_000_000 > secs ==> expired(elapsed, secs),
{
}

/// The scratch namespace is gone exactly where it was deleted or was not there, and the sockets and the
/// HTTP port pass exactly where they answer as they should.
pub proof fn law_deep_checks_need_answers(
    d: DeletionReply,
    url: Seq<char>,
    status: Reply<u16>,
    out: Reply<String>,
)
    ensures
        cleanup_verdict(d) is Ok <==> d is Deleted || d is NotFound,
        host_http_verdict(url, status) is Ok <==> status is Got,
        docker_socket_verdict(out) is Ok <==> (out matches Reply::Got(s) && trimmed(s@) == "ok"@),
        runtime_socket_verdict(Some(out)) is Ok <==> docker_socket_verdict(out) is Ok,
        runtime_socket_verdict(None) is Ok,
{
}

/// Ports are published at the address of a remote Docker host where it is known, and else on this
/// machine.
pub proof fn law_ports_are_published_at_the_host(remote: Option<Option<String>>)
    ensures
        remote is Some && remote->0 is Some ==> published_host(remote) == remote->0->0@,
        remote is None || remote->0 is None ==> published_host(remote) == "127.0.0.1"@,
{
}

} // verus!
