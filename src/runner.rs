use vstd::prelude::*;

verus! {

/// How a unit of work ended, as its join reported it.
#[derive(Clone, Copy, Debug, PartialEq, Eq, Structural)]
pub enum Outcome {
    Completed,
    Faulted,
}

/// What the coordinator is to do next.
#[derive(Clone, Copy, Debug, PartialEq, Eq, Structural)]
pub enum Action {
    /// Start the unit of work with this index and keep its handle.
    Spawn(u32),
    /// Wait on the handle at this position (the unit with this index).
    Join(u32),
    /// Every unit has been waited on: return to the caller.
    Return,
}

/// What the coordinator reports back after carrying out an action.
#[derive(Clone, Copy, Debug, PartialEq, Eq, Structural)]
pub enum Event {
    /// The pending unit was started and its handle recorded.
    Started,
    /// The wait on the pending handle returned, with the unit's outcome.
    Finished(Outcome),
}

/// The abstract state of a run: how many units there are, how many have
/// been started, and how many have been waited on.
pub ghost struct RunState {
    pub n: nat,
    pub spawned: nat,
    pub joined: nat,
}

impl RunState {
    /// The state before anything has been started.
    pub open spec fn init(n: nat) -> RunState {
        RunState { n, spawned: 0, joined: 0 }
    }

    /// Units are waited on only after all of them have been started.
    pub open spec fn wf(self) -> bool {
        &&& self.joined <= self.spawned
        &&& self.spawned <= self.n
        &&& self.n <= u32::MAX
        &&& self.joined > 0 ==> self.spawned == self.n
    }

    /// Start units in index order, then wait on them in the same order, then return.
    pub open spec fn action(self) -> Action {
        if self.spawned < self.n {
            Action::Spawn(self.spawned as u32)
        } else if self.joined < self.n {
            Action::Join(self.joined as u32)
        } else {
            Action::Return
        }
    }

    /// The state once the pending action has been carried out.
    pub open spec fn progress(self) -> RunState {
        match self.action() {
            Action::Spawn(_) => RunState { spawned: self.spawned + 1, ..self },
            Action::Join(_) => RunState { joined: self.joined + 1, ..self },
            Action::Return => self,
        }
    }

    /// Whether `ev` reports on the pending action. A join answers whatever
    /// the unit's outcome was.
    pub open spec fn answers(self, ev: Event) -> bool {
        match (self.action(), ev) {
            (Action::Spawn(_), Event::Started) => true,
            (Action::Join(_), Event::Finished(_)) => true,
            _ => false,
        }
    }

    /// The state after `ev`: an event that does not answer the pending
    /// action changes nothing.
    pub open spec fn after(self, ev: Event) -> RunState {
        if self.answers(ev) {
            self.progress()
        } else {
            self
        }
    }

    /// The state after `k` pending actions have been carried out in turn.
    pub open spec fn after_steps(self, k: nat) -> RunState
        decreases k,
    {
        if k == 0 {
            self
        } else {
            self.progress().after_steps((k - 1) as nat)
        }
    }
}

/// The coordinator of a fan-out/join run over `n` units of work.
pub struct Runner {
    n: u32,
    spawned: u32,
    joined: u32,
}

impl View for Runner {
    type V = RunState;

    closed spec fn view(&self) -> RunState {
        RunState { n: self.n as nat, spawned: self.spawned as nat, joined: self.joined as nat }
    }
}

impl Runner {
    /// A run over `n` units, none of them started yet.
    pub fn new(n: u32) -> (r: Runner)
        ensures
            r@ == RunState::init(n as nat),
            r@.wf(),
    {
        Runner { n, spawned: 0, joined: 0 }
    }

    /// What the coordinator is to do next.
    pub fn next_action(&self) -> (r: Action)
        requires
            self@.wf(),
        ensures
            r == self@.action(),
    {
        if self.spawned < self.n {
            Action::Spawn(self.spawned)
        } else if self.joined < self.n {
            Action::Join(self.joined)
        } else {
            Action::Return
        }
    }

    /// Takes in what came of the pending action.
    pub fn record(&mut self, ev: Event)
        requires
            old(self)@.wf(),
        ensures
            final(self)@ == old(self)@.after(ev),
            final(self)@.wf(),
    {
        if self.spawned < self.n {
            if let Event::Started = ev {
                self.spawned = self.spawned + 1;
            }
        } else if self.joined < self.n {
            if let Event::Finished(_) = ev {
                self.joined = self.joined + 1;
            }
        }
    }

    /// Whether every unit has been started and waited on.
    pub fn is_finished(&self) -> (r: bool)
        requires
            self@.wf(),
        ensures
            r == (self@.action() == Action::Return),
    {
        self.spawned == self.n && self.joined == self.n
    }
}

/// The state of a run over `n` units after `k` steps, in closed form.
pub open spec fn state_at(n: nat, k: nat) -> RunState {
    if k <= n {
        RunState { n, spawned: k, joined: 0 }
    } else if k <= 2 * n {
        RunState { n, spawned: n, joined: (k - n) as nat }
    } else {
        RunState { n, spawned: n, joined: n }
    }
}

proof fn lemma_after_steps_succ(s: RunState, k: nat)
    ensures
        s.after_steps(k + 1) == s.after_steps(k).progress(),
    decreases k,
{
    assert(s.after_steps(k + 1) == s.progress().after_steps(k));
    if k > 0 {
        lemma_after_steps_succ(s.progress(), (k - 1) as nat);
        assert(s.after_steps(k) == s.progress().after_steps((k - 1) as nat));
    } else {
        assert(s.progress().after_steps(0) == s.progress());
    }
}

proof fn lemma_state_at(n: nat, k: nat)
    ensures
        RunState::init(n).after_steps(k) == state_at(n, k),
    decreases k,
{
    if k > 0 {
        lemma_state_at(n, (k - 1) as nat);
        lemma_after_steps_succ(RunState::init(n), (k - 1) as nat);
    }
}

/// Every index below `n` is started exactly once, at the step of the same
/// number, and no other step starts a unit; so the started indices are
/// exactly `0 .. n`, without repetition.
pub proof fn lemma_each_index_started_once(n: nat)
    requires
        n <= u32::MAX,
    ensures
        forall|k: nat|
            (#[trigger] RunState::init(n).after_steps(k).action() is Spawn) <==> k < n,
        forall|k: nat|
            k < n ==> #[trigger] RunState::init(n).after_steps(k).action() == Action::Spawn(
                k as u32,
            ),
{
    assert forall|k: nat|
        (#[trigger] RunState::init(n).after_steps(k).action() is Spawn) <==> k < n by {
        lemma_state_at(n, k);
    }
    assert forall|k: nat|
        k < n implies #[trigger] RunState::init(n).after_steps(k).action() == Action::Spawn(
            k as u32,
        ) by {
        lemma_state_at(n, k);
    }
}

/// Every handle is waited on exactly once: after all units are started, step
/// `n + i` waits on the unit with index `i`, and no other step waits.
pub proof fn lemma_each_handle_joined_once(n: nat)
    requires
        n <= u32::MAX,
    ensures
        forall|k: nat|
            (#[trigger] RunState::init(n).after_steps(k).action() is Join) <==> (n <= k
                && k < 2 * n),
        forall|i: nat|
            i < n ==> #[trigger] RunState::init(n).after_steps(n + i).action() == Action::Join(
                i as u32,
            ),
{
    assert forall|k: nat|
        (#[trigger] RunState::init(n).after_steps(k).action() is Join) <==> (n <= k && k < 2
            * n) by {
        lemma_state_at(n, k);
    }
    assert forall|i: nat|
        i < n implies #[trigger] RunState::init(n).after_steps(n + i).action() == Action::Join(
            i as u32,
        ) by {
        lemma_state_at(n, n + i);
    }
}

/// A run always returns: over `n` units it asks to return after exactly
/// `2 * n` steps, and at no earlier step.
pub proof fn lemma_run_returns(n: nat)
    requires
        n <= u32::MAX,
    ensures
        forall|k: nat|
            (#[trigger] RunState::init(n).after_steps(k).action() == Action::Return) <==> k >= 2
                * n,
{
    assert forall|k: nat|
        (#[trigger] RunState::init(n).after_steps(k).action() == Action::Return) <==> k >= 2
            * n by {
        lemma_state_at(n, k);
    }
}

/// The coordinator returns only once every unit has been started and waited on.
pub proof fn lemma_return_after_all_joined(s: RunState)
    requires
        s.wf(),
        s.action() == Action::Return,
    ensures
        s.spawned == s.n,
        s.joined == s.n,
{
}

/// A unit's fault is contained at its join: a faulted unit moves the run on
/// exactly as a completed one does, to the wait on the next handle or the return.
pub proof fn lemma_fault_is_contained(s: RunState)
    requires
        s.wf(),
        s.action() is Join,
    ensures
        s.after(Event::Finished(Outcome::Faulted)) == s.after(Event::Finished(Outcome::Completed)),
        s.after(Event::Finished(Outcome::Faulted)) == s.progress(),
        s.after(Event::Finished(Outcome::Faulted)).wf(),
{
}

} // verus!
