//! The fault bridge: observers of the host that hear of a fault before the
//! handler that was in place takes over.
//!
//! Installing an observer wraps whatever handled faults until then. On a
//! fault the observer installed last is told first, then the one before
//! it, and at the end the platform's own handler runs, once. Observing
//! recovers nothing: the faulting path still ends.
use vstd::prelude::*;
use vstd::slice::slice_to_vec;
use crate::text::{c_text, nul_free, string_callback};

verus! {

/// One thing done when a fault is handled.
#[derive(Debug, PartialEq, Eq)]
pub enum FaultStep {
    /// The observer hears of the fault, described in boundary form.
    Report { observer: u64, text: Vec<u8> },
    /// The platform's own handler runs.
    Default,
}

/// A fault step as a mathematical value.
pub enum FaultStepView {
    Report { observer: u64, text: Seq<u8> },
    Default,
}

impl View for FaultStep {
    type V = FaultStepView;

    open spec fn view(&self) -> FaultStepView {
        match *self {
            FaultStep::Report { observer, text } => FaultStepView::Report { observer, text: text@ },
            FaultStep::Default => FaultStepView::Default,
        }
    }
}

/// The views of a list of fault steps.
pub open spec fn step_views(steps: Seq<FaultStep>) -> Seq<FaultStepView> {
    steps.map_values(|s: FaultStep| s@)
}

/// The observers of a process, in the order in which they were installed.
#[derive(Debug, PartialEq, Eq)]
pub struct FaultChain {
    pub observers: Vec<u64>,
}

/// What happens on a fault with these observers installed: each observer
/// hears of it, the last installed first, and then the platform's handler
/// runs.
pub open spec fn handled(observers: Seq<u64>, description: Seq<u8>) -> Seq<FaultStepView> {
    Seq::new(
        observers.len() + 1,
        |i: int|
            if i < observers.len() {
                FaultStepView::Report {
                    observer: observers[observers.len() - 1 - i],
                    text: c_text(description),
                }
            } else {
                FaultStepView::Default
            },
    )
}

impl FaultChain {
    /// The chain of a process in which nothing was installed: faults go
    /// straight to the platform's handler.
    pub fn new() -> (chain: Self)
        ensures
            chain.observers@ == Seq::<u64>::empty(),
    {
        FaultChain { observers: Vec::new() }
    }

    /// Handles a fault: the steps to take, in order.
    pub fn on_fault(&self, description: &[u8]) -> (steps: Vec<FaultStep>)
        requires
            nul_free(description@),
        ensures
            step_views(steps@) == handled(self.observers@, description@),
    {
        let n = self.observers.len();
        let mut steps: Vec<FaultStep> = Vec::new();
        let mut i: usize = 0;
        while i < n
            invariant
                i <= n,
                n == self.observers@.len(),
                nul_free(description@),
                steps@.len() == i,
                forall|k: int|
                    0 <= k < i ==> (#[trigger] steps@[k])@ == handled(
                        self.observers@,
                        description@,
                    )[k],
            decreases n - i,
        {
            let text = string_callback(slice_to_vec(description));
            steps.push(FaultStep::Report { observer: self.observers[n - 1 - i], text });
            i += 1;
        }
        steps.push(FaultStep::Default);
        assert(step_views(steps@) =~= handled(self.observers@, description@));
        steps
    }
}

/// Installs an observer of faults. It wraps the chain that was in place:
/// from now on it hears of a fault first, and everything that handled
/// faults before still does so afterwards.
pub fn endb_set_panic_hook(chain: &mut FaultChain, observer: u64)
    ensures
        final(chain).observers@ == old(chain).observers@.push(observer),
{
    chain.observers.push(observer);
}

/// After an observer is installed, a fault is first reported to it, and
/// then handled exactly as it would have been before.
pub proof fn lemma_installed_observer_comes_first(
    observers: Seq<u64>,
    observer: u64,
    description: Seq<u8>,
)
    ensures
        handled(observers.push(observer), description) == seq![
            FaultStepView::Report { observer, text: c_text(description) },
        ] + handled(observers, description),
{
    assert(handled(observers.push(observer), description) =~= seq![
        FaultStepView::Report { observer, text: c_text(description) },
    ] + handled(observers, description));
}

/// The platform's handler runs exactly once on every fault, after all the
/// observers.
pub proof fn lemma_default_runs_last(observers: Seq<u64>, description: Seq<u8>)
    ensures
        handled(observers, description).last() is Default,
        forall|i: int|
            0 <= i < observers.len() ==> #[trigger] handled(observers, description)[i] is Report,
{
}

} // verus!
