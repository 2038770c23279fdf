//! The one-shot guard of the initialization hook: the plugin list is loaded
//! by the first caller only, and every other caller waits until that is done.
use vstd::prelude::*;

verus! {

#[derive(Clone, Copy, PartialEq, Eq, Debug)]
pub enum InitState {
    /// No caller has entered yet.
    Uninitialized,
    /// One caller is loading the plugins.
    Loading,
    /// The plugins have been loaded.
    Initialized,
}

/// What a caller of the initialization hook does after entering the guard.
#[derive(Clone, Copy, PartialEq, Eq, Debug)]
pub enum Entry {
    /// Load the plugins, then call `finish`, then the host's initialization.
    RunLoad,
    /// Another caller is loading: wait for it, then enter again.
    Wait,
    /// Loading is done: call the host's initialization.
    Proceed,
}

/// One attempt to enter the guard: the new state and the caller's part.
pub open spec fn enter_step(s: InitState) -> (InitState, Entry) {
    match s {
        InitState::Uninitialized => (InitState::Loading, Entry::RunLoad),
        InitState::Loading => (InitState::Loading, Entry::Wait),
        InitState::Initialized => (InitState::Initialized, Entry::Proceed),
    }
}

/// The end of loading; it changes nothing in any other state.
pub open spec fn finish_step(s: InitState) -> InitState {
    match s {
        InitState::Loading => InitState::Initialized,
        _ => s,
    }
}

#[derive(Debug)]
pub struct InitGuard {
    state: InitState,
}

impl InitGuard {
    pub closed spec fn view(&self) -> InitState {
        self.state
    }

    pub fn new() -> (r: InitGuard)
        ensures
            r@ == InitState::Uninitialized,
    {
        InitGuard { state: InitState::Uninitialized }
    }

    pub fn state(&self) -> (r: InitState)
        ensures
            r == self@,
    {
        self.state
    }

    /// Enters the guard. Only the first caller gets `RunLoad`.
    pub fn enter(&mut self) -> (r: Entry)
        ensures
            (final(self)@, r) == enter_step(old(self)@),
    {
        match self.state {
            InitState::Uninitialized => {
                self.state = InitState::Loading;
                Entry::RunLoad
            },
            InitState::Loading => Entry::Wait,
            InitState::Initialized => Entry::Proceed,
        }
    }

    /// Marks the loading begun by `RunLoad` as done.
    pub fn finish(&mut self)
        requires
            old(self)@ == InitState::Loading,
        ensures
            final(self)@ == InitState::Initialized,
            final(self)@ == finish_step(old(self)@),
    {
        self.state = InitState::Initialized;
    }
}

/// One call of the initialization hook by a lone caller: enter, and load
/// then finish where the guard says so. The result is the new state and
/// whether this call loaded the plugins.
pub open spec fn hook_call(s: InitState) -> (InitState, bool) {
    let (t, e) = enter_step(s);
    if e == Entry::RunLoad {
        (finish_step(t), true)
    } else {
        (t, false)
    }
}

/// The state after `n` calls made one after the other, and how many of them
/// loaded the plugins.
pub open spec fn hook_calls(s: InitState, n: nat) -> (InitState, nat)
    decreases n,
{
    if n == 0 {
        (s, 0)
    } else {
        let (t, loads) = hook_calls(s, (n - 1) as nat);
        let (u, ran) = hook_call(t);
        (u, if ran {
            loads + 1
        } else {
            loads
        })
    }
}

/// Calls made one after the other: of `n > 0` calls on a fresh guard exactly
/// one loads the plugins, none has to wait, and so each goes on to the host's
/// initialization.
pub proof fn lemma_sequential_calls_load_once(n: nat)
    requires
        n > 0,
    ensures
        hook_calls(InitState::Uninitialized, n) == (InitState::Initialized, 1nat),
        forall|k: nat|
            k < n ==> enter_step(#[trigger] hook_calls(InitState::Uninitialized, k).0).1
                != Entry::Wait,
    decreases n,
{
    if n > 1 {
        lemma_sequential_calls_load_once((n - 1) as nat);
        assert(hook_call(InitState::Initialized) == (InitState::Initialized, false));
    } else {
        assert(hook_calls(InitState::Uninitialized, 0) == (InitState::Uninitialized, 0nat));
        assert(hook_call(InitState::Uninitialized) == (InitState::Initialized, true));
    }
    assert forall|k: nat| k < n implies enter_step(
        #[trigger] hook_calls(InitState::Uninitialized, k).0,
    ).1 != Entry::Wait by {
        if k > 0 {
            lemma_sequential_calls_load_once(k);
        }
    }
}

/// An operation on the guard by some caller, in any interleaving of callers.
#[derive(Clone, Copy, PartialEq, Eq, Debug)]
pub enum GuardOp {
    Enter,
    Finish,
}

/// The state after the operations `ops`, and how many entries got `RunLoad`.
pub open spec fn run_ops(s: InitState, ops: Seq<GuardOp>) -> (InitState, nat)
    decreases ops.len(),
{
    if ops.len() == 0 {
        (s, 0)
    } else {
        let (t, runs) = run_ops(s, ops.drop_last());
        match ops.last() {
            GuardOp::Enter => {
                let (u, e) = enter_step(t);
                (u, if e == Entry::RunLoad {
                    runs + 1
                } else {
                    runs
                })
            },
            GuardOp::Finish => (finish_step(t), runs),
        }
    }
}

/// Callers interleaved in any order: however the entries and finishes of
/// any number of callers interleave, a fresh guard hands out `RunLoad` once
/// if anyone entered and never otherwise; and until loading is finished,
/// every other entry waits.
pub proof fn lemma_interleaved_calls_load_once(ops: Seq<GuardOp>)
    ensures
        run_ops(InitState::Uninitialized, ops).1 == (if ops.contains(GuardOp::Enter) {
            1nat
        } else {
            0nat
        }),
        run_ops(InitState::Uninitialized, ops).0 == InitState::Loading ==> enter_step(
            run_ops(InitState::Uninitialized, ops).0,
        ).1 == Entry::Wait,
    decreases ops.len(),
{
    if ops.len() > 0 {
        let prev = ops.drop_last();
        lemma_interleaved_calls_load_once(prev);
        lemma_runs_track_state(prev);
        if ops.contains(GuardOp::Enter) && !prev.contains(GuardOp::Enter) {
            let i = choose|i: int| 0 <= i < ops.len() && ops[i] == GuardOp::Enter;
            if i < ops.len() - 1 {
                assert(prev[i] == GuardOp::Enter);
            }
        }
        if prev.contains(GuardOp::Enter) {
            let i = choose|i: int| 0 <= i < prev.len() && prev[i] == GuardOp::Enter;
            assert(ops[i] == GuardOp::Enter);
        }
        if ops.last() == GuardOp::Enter {
            assert(ops[ops.len() - 1] == GuardOp::Enter);
        }
    } else {
        assert(!ops.contains(GuardOp::Enter));
    }
}

/// The guard has left its first state exactly when some entry got `RunLoad`.
proof fn lemma_runs_track_state(ops: Seq<GuardOp>)
    ensures
        (run_ops(InitState::Uninitialized, ops).1 == 0) == (run_ops(
            InitState::Uninitialized,
            ops,
        ).0 == InitState::Uninitialized),
        run_ops(InitState::Uninitialized, ops).1 <= 1,
    decreases ops.len(),
{
    if ops.len() > 0 {
        lemma_runs_track_state(ops.drop_last());
    }
}

} // verus!
