//! The dispatch plan: one probe per wordlist line, all of them launched
//! before the first is awaited, and every one awaited in launch order.

use crate::probe::target_url;
use crate::text::{lines_of, split_lines};
use vstd::prelude::*;

verus! {

/// Where a dispatcher stands.
#[derive(Clone, Copy, Debug, PartialEq, Eq, Structural)]
pub enum Phase {
    /// Probes are still being launched.
    Dispatching,
    /// Every probe is launched; some are not awaited yet.
    Draining,
    /// Every probe has been launched and awaited.
    Done,
}

/// What the caller is asked to do next.
#[derive(Debug, PartialEq, Eq)]
pub enum Action {
    /// Start the probe with this number, against this URL, and do not wait
    /// for it.
    Launch { index: usize, url: String },
    /// Wait for the probe with this number to complete.
    Join { index: usize },
    /// Nothing is left to do.
    Finish,
}

/// An `Action` over plain values.
pub enum ActionView {
    Launch { index: nat, url: Seq<char> },
    Join { index: nat },
    Finish,
}

impl View for Action {
    type V = ActionView;

    open spec fn view(&self) -> ActionView {
        match self {
            Action::Launch { index, url } => ActionView::Launch { index: *index as nat, url: url@ },
            Action::Join { index } => ActionView::Join { index: *index as nat },
            Action::Finish => ActionView::Finish,
        }
    }
}

/// The target URLs for the entries of a wordlist: the base URL with each
/// entry appended, in the order of the entries.
pub open spec fn targets_of(base_url: Seq<char>, entries: Seq<Seq<char>>) -> Seq<Seq<char>> {
    Seq::new(entries.len(), |i: int| base_url + entries[i])
}

/// The state of a dispatcher: the targets, how many probes have been
/// launched and how many of them have been awaited.
pub struct PlanView {
    pub targets: Seq<Seq<char>>,
    pub launched: nat,
    pub joined: nat,
}

impl PlanView {
    /// The plan for `targets` before anything is launched.
    pub open spec fn initial(targets: Seq<Seq<char>>) -> PlanView {
        PlanView { targets, launched: 0, joined: 0 }
    }

    /// Probes are launched in order and awaited in order, and none is
    /// awaited before all are launched.
    pub open spec fn wf(self) -> bool {
        &&& self.joined <= self.launched <= self.targets.len()
        &&& self.joined > 0 ==> self.launched == self.targets.len()
    }

    /// Launching comes first, then draining, and the run is done when every
    /// probe has been awaited.
    pub open spec fn phase(self) -> Phase {
        if self.launched < self.targets.len() {
            Phase::Dispatching
        } else if self.joined < self.targets.len() {
            Phase::Draining
        } else {
            Phase::Done
        }
    }

    /// The action that this state asks for.
    pub open spec fn action(self) -> ActionView {
        match self.phase() {
            Phase::Dispatching => ActionView::Launch {
                index: self.launched,
                url: self.targets[self.launched as int],
            },
            Phase::Draining => ActionView::Join { index: self.joined },
            Phase::Done => ActionView::Finish,
        }
    }

    /// The state once that action has been taken.
    pub open spec fn next(self) -> PlanView {
        match self.phase() {
            Phase::Dispatching => PlanView { launched: self.launched + 1, ..self },
            Phase::Draining => PlanView { joined: self.joined + 1, ..self },
            Phase::Done => self,
        }
    }

    /// The state after `k` steps.
    pub open spec fn after(self, k: nat) -> PlanView
        decreases k,
    {
        if k == 0 {
            self
        } else {
            self.after((k - 1) as nat).next()
        }
    }
}

/// Hands out the actions of a run one at a time.
#[derive(Debug)]
pub struct Dispatcher {
    targets: Vec<String>,
    launched: usize,
    joined: usize,
}

impl View for Dispatcher {
    type V = PlanView;

    closed spec fn view(&self) -> PlanView {
        PlanView {
            targets: self.targets.deep_view(),
            launched: self.launched as nat,
            joined: self.joined as nat,
        }
    }
}

impl Dispatcher {
    #[verifier::type_invariant]
    spec fn inv(&self) -> bool {
        self@.wf()
    }

    /// A dispatcher for the lines of `wordlist` under `base_url`, with
    /// nothing launched yet.
    pub fn new(base_url: &str, wordlist: &str) -> (dispatcher: Dispatcher)
        ensures
            dispatcher@ == PlanView::initial(targets_of(base_url@, lines_of(wordlist@))),
    {
        let entries = split_lines(wordlist);
        let mut targets: Vec<String> = Vec::new();
        let mut i: usize = 0;
        while i < entries.len()
            invariant
                i <= entries.len(),
                targets.len() == i,
                forall|j: int| 0 <= j < i ==> (#[trigger] targets[j])@ == base_url@ + entries[j]@,
            decreases entries.len() - i,
        {
            targets.push(target_url(base_url, entries[i].as_str()));
            i += 1;
        }
        assert(targets.deep_view() =~= targets_of(base_url@, entries.deep_view()));
        Dispatcher { targets, launched: 0, joined: 0 }
    }

    /// The number of probes of the run.
    pub fn total(&self) -> (n: usize)
        ensures
            n == self@.targets.len(),
    {
        self.targets.len()
    }

    /// Where the run stands.
    pub fn phase(&self) -> (phase: Phase)
        ensures
            phase == self@.phase(),
    {
        if self.launched < self.targets.len() {
            Phase::Dispatching
        } else if self.joined < self.targets.len() {
            Phase::Draining
        } else {
            Phase::Done
        }
    }

    /// Hands out the next action and moves on.
    pub fn step(&mut self) -> (action: Action)
        ensures
            old(self)@.wf(),
            final(self)@.wf(),
            action@ == old(self)@.action(),
            final(self)@ == old(self)@.next(),
    {
        proof {
            use_type_invariant(&*self);
        }
        if self.launched < self.targets.len() {
            let index = self.launched;
            let url = self.targets[index].clone();
            assert(self.targets.deep_view()[index as int] == self.targets[index as int]@);
            self.launched = index + 1;
            Action::Launch { index, url }
        } else if self.joined < self.targets.len() {
            let index = self.joined;
            self.joined = index + 1;
            Action::Join { index }
        } else {
            Action::Finish
        }
    }
}

/// Where a run stands after `k` steps from the start: the first steps
/// launch, one probe each, and once every probe is launched the next steps
/// await them, one each.
pub open spec fn progress(targets: Seq<Seq<char>>, k: nat) -> PlanView {
    let n = targets.len();
    PlanView {
        targets,
        launched: if k <= n {
            k
        } else {
            n
        },
        joined: if k <= n {
            0
        } else if k <= 2 * n {
            (k - n) as nat
        } else {
            n
        },
    }
}

/// A step keeps a plan well formed and never touches its targets.
pub proof fn lemma_step_preserves_wf(plan: PlanView)
    requires
        plan.wf(),
    ensures
        plan.next().wf(),
        plan.next().targets == plan.targets,
{
}

/// A run over `n` targets launches exactly `n` probes and ends only when
/// all of them have completed. Step `k` of the run, counted from 0,
/// launches the probe for target `k` while `k < n`; it awaits probe
/// `k - n` while `n <= k < 2 * n`, so that nothing is launched once the
/// draining has begun and the probes are awaited in launch order; from
/// step `2 * n` on there is nothing left to do. The run is done after `k`
/// steps exactly when `k >= 2 * n`.
pub proof fn lemma_run_launches_each_target_once(targets: Seq<Seq<char>>, k: nat)
    ensures
        PlanView::initial(targets).after(k) == progress(targets, k),
        PlanView::initial(targets).after(k).wf(),
        k < targets.len() ==> PlanView::initial(targets).after(k).action() == (ActionView::Launch {
            index: k,
            url: targets[k as int],
        }),
        targets.len() <= k < 2 * targets.len() ==> PlanView::initial(targets).after(k).action()
            == (ActionView::Join { index: (k - targets.len()) as nat }),
        k >= 2 * targets.len() ==> PlanView::initial(targets).after(k).action()
            == ActionView::Finish,
        PlanView::initial(targets).after(k).phase() == Phase::Done <==> k >= 2 * targets.len(),
        PlanView::initial(targets).after(k).phase() == Phase::Dispatching <==> k < targets.len(),
    decreases k,
{
    if k > 0 {
        lemma_run_launches_each_target_once(targets, (k - 1) as nat);
    }
}

} // verus!
