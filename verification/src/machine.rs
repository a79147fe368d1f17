//! Operations that go on in steps: an action is performed elsewhere, and what came of it decides
//! the next.

use vstd::prelude::*;
use crate::output::{line_views, LineView, OutputLine, OutputType};
use crate::text::opt_view;

verus! {

/// What came of an action.
#[derive(Debug)]
pub enum Event {
    /// It is so.
    Yes,
    /// It is not so.
    No,
    Done,
    Failed(String),
}

/// Whether an event is a good one.
pub open spec fn good(ev: Event) -> bool {
    ev is Yes || ev is Done
}

/// The reason that an event gives for a failure.
pub open spec fn reason(ev: Event) -> Seq<char> {
    match ev {
        Event::Failed(e) => e@,
        _ => Seq::empty(),
    }
}

impl Event {
    /// Whether this is a good event.
    pub fn is_good(&self) -> (r: bool)
        ensures
            r == good(*self),
    {
        match self {
            Event::Yes => true,
            Event::Done => true,
            _ => false,
        }
    }

    /// The reason that it gives for a failure.
    pub fn why(&self) -> (r: String)
        ensures
            r@ == reason(*self),
    {
        match self {
            Event::Failed(e) => e.clone(),
            _ => String::new(),
        }
    }
}

/// A failure: its message, and what it was caused by, where the message does not say so itself.
#[derive(Debug, Clone)]
pub struct Trouble {
    pub message: String,
    pub cause: Option<String>,
}

/// A failure, as a value.
pub struct TroubleView {
    pub message: Seq<char>,
    pub cause: Option<Seq<char>>,
}

impl View for Trouble {
    type V = TroubleView;

    open spec fn view(&self) -> TroubleView {
        TroubleView { message: self.message@, cause: opt_view(self.cause) }
    }
}

/// A failure with its cause, as it is told in full.
pub open spec fn in_full(t: TroubleView) -> Seq<char> {
    match t.cause {
        Some(c) => t.message + ": "@ + c,
        None => t.message,
    }
}

impl Trouble {
    /// The failure with its cause.
    pub fn told_in_full(&self) -> (r: String)
        ensures
            r@ == in_full(self@),
    {
        let mut s = self.message.clone();
        if let Some(c) = &self.cause {
            s.append(": ");
            s.append(c.as_str());
        }
        s
    }
}

/// What follows a step.
#[derive(Debug)]
pub enum Next<S, O> {
    /// Perform this action.
    Go(S),
    /// The operation is over, with this outcome.
    Done(O),
    /// The operation has failed, with this message.
    Fail(String),
}

/// What follows a step, as a value.
pub enum NextView<S, O> {
    Go(S),
    Done(O),
    Fail(Seq<char>),
}

/// One step of an operation: what to say, and what follows.
#[derive(Debug)]
pub struct Step<S, O> {
    pub lines: Vec<OutputLine>,
    pub next: Next<S, O>,
}

/// A step, as a value.
pub type StepView<S, O> = (Seq<LineView>, NextView<S, O>);

impl<S, O> View for Next<S, O> {
    type V = NextView<S, O>;

    open spec fn view(&self) -> NextView<S, O> {
        match *self {
            Next::Go(s) => NextView::Go(s),
            Next::Done(o) => NextView::Done(o),
            Next::Fail(e) => NextView::Fail(e@),
        }
    }
}

impl<S, O> View for Step<S, O> {
    type V = StepView<S, O>;

    open spec fn view(&self) -> StepView<S, O> {
        (line_views(self.lines@), self.next@)
    }
}

/// No lines.
pub open spec fn silent() -> Seq<LineView> {
    Seq::empty()
}

/// No lines.
pub fn no_lines() -> (r: Vec<OutputLine>)
    ensures
        line_views(r@) == silent(),
{
    let r: Vec<OutputLine> = Vec::new();
    assert(line_views(r@) =~= silent());
    r
}

/// A step that says nothing and goes on.
pub fn go<S, O>(s: S) -> (r: Step<S, O>)
    ensures
        r@ == (silent(), NextView::<S, O>::Go(s)),
{
    Step { lines: no_lines(), next: Next::Go(s) }
}

/// A step that says nothing and ends the operation.
pub fn done<S, O>(o: O) -> (r: Step<S, O>)
    ensures
        r@ == (silent(), NextView::<S, O>::Done(o)),
{
    Step { lines: no_lines(), next: Next::Done(o) }
}

/// A step that says nothing and fails for the reason that an event gives.
pub fn fail<S, O>(ev: &Event) -> (r: Step<S, O>)
    ensures
        r@ == (silent(), NextView::<S, O>::Fail(reason(*ev))),
{
    Step { lines: no_lines(), next: Next::Fail(ev.why()) }
}

/// The index of the first failure among results.
pub open spec fn first_bad(results: Seq<Result<(), String>>, from: int) -> Option<int>
    decreases results.len() - from,
{
    if from < 0 || from >= results.len() {
        None
    } else if results[from] is Err {
        Some(from)
    } else {
        first_bad(results, from + 1)
    }
}

/// The message of the first failure among results.
pub open spec fn first_failure(results: Seq<Result<(), String>>) -> Option<Seq<char>> {
    match first_bad(results, 0) {
        Some(i) => Some(results[i]->Err_0@),
        None => None,
    }
}

/// The message of the first failure among results.
pub fn find_failure(results: &Vec<Result<(), String>>) -> (r: Option<String>)
    ensures
        opt_view(r) == first_failure(results@),
{
    let mut i: usize = 0;
    while i < results.len()
        invariant
            i <= results@.len(),
            first_bad(results@, 0) == first_bad(results@, i as int),
        decreases results@.len() - i,
    {
        if let Err(e) = &results[i] {
            return Some(e.clone());
        }
        i = i + 1;
    }
    None
}

// ---------------------------------------------------------------------------
// Laws
// ---------------------------------------------------------------------------

/// What is so and what was done is good; what is not so and what failed is not. A failure tells why.
pub proof fn law_events_are_told_apart(ev: Event)
    ensures
        good(ev) <==> !(ev is No) && !(ev is Failed),
        ev matches Event::Failed(e) ==> reason(ev) == e@,
{
}

proof fn lemma_first_bad(results: Seq<Result<(), String>>, from: int)
    requires
        0 <= from <= results.len(),
    ensures
        match first_bad(results, from) {
            Some(k) => from <= k < results.len() && results[k] is Err && forall|i: int|
                from <= i < k ==> results[i] is Ok,
            None => forall|i: int| from <= i < results.len() ==> results[i] is Ok,
        },
    decreases results.len() - from,
{
    if from < results.len() && results[from] is Ok {
        lemma_first_bad(results, from + 1);
    }
}

/// There is no failure exactly where all results are good; else the failure that is told is the one
/// before which all results are good.
pub proof fn law_first_failure_decides(results: Seq<Result<(), String>>, k: int)
    ensures
        first_failure(results) is None <==> forall|i: int|
            0 <= i < results.len() ==> (#[trigger] results[i]) is Ok,
        0 <= k < results.len() && results[k] is Err && (forall|i: int|
            0 <= i < k ==> (#[trigger] results[i]) is Ok) ==> first_failure(results) == Some(
            results[k]->Err_0@,
        ),
{
    lemma_first_bad(results, 0);
    if let Some(j) = first_bad(results, 0) {
        assert(results[j] is Err);
        if 0 <= k < results.len() && results[k] is Err && (forall|i: int|
            0 <= i < k ==> (#[trigger] results[i]) is Ok) {
            assert(j >= k);
        }
    }
}

/// Whether a line among others reports success.
pub open spec fn tells_success(lines: Seq<LineView>) -> bool {
    exists|i: int| 0 <= i < lines.len() && (#[trigger] lines[i]).0 == OutputType::Success
}

} // verus!
