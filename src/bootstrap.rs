use vstd::prelude::*;

verus! {

/// Which module-creation interface the embedding runtime offers.
#[derive(Clone, Copy, Debug, PartialEq, Eq, Structural)]
pub enum Abi {
    /// Creation hands back the module object, which bootstrap returns.
    Returning,
    /// Creation and bootstrap return nothing; errors go only to the
    /// runtime's error channel. The scope is opened before creation.
    Legacy,
}

/// Where a bootstrap stands.
#[derive(Clone, Copy, Debug, PartialEq, Eq, Structural)]
pub enum Phase {
    Start,
    InitializingProcess,
    CreatingModule,
    OpeningScope,
    WrappingHandle,
    SettingDoc,
    RunningInitializer,
    Done,
}

/// What the runtime reports back after carrying out an action.
#[derive(Clone, Copy, Debug, PartialEq, Eq, Structural)]
pub enum Event {
    /// The module load has begun.
    Begin,
    /// Process-wide initialization is in place.
    ProcessReady,
    /// The runtime tried to allocate the module object.
    ModuleCreated { ok: bool },
    /// The interop scope is held.
    ScopeOpened,
    /// The raw module object was checked and wrapped.
    HandleWrapped { ok: bool },
    /// The documentation attribute was attached.
    DocSet { ok: bool },
    /// The user initializer returned.
    InitializerFinished { ok: bool },
}

/// What bootstrap hands back to the runtime when it ends.
#[derive(Clone, Copy, Debug, PartialEq, Eq, Structural)]
pub enum Outcome {
    /// The module pointer, whose ownership passes to the runtime.
    Module,
    /// The null pointer.
    Null,
    /// No value: the interface returns nothing.
    Nothing,
}

/// What the runtime is to do next.
#[derive(Clone, Copy, Debug, PartialEq, Eq, Structural)]
pub enum Action {
    InitProcess,
    CreateModule,
    OpenScope,
    WrapHandle,
    SetDoc,
    RunInitializer,
    /// End the bootstrap: first record the pending error on the runtime's
    /// error channel if `report_error`, release the scope if
    /// `release_scope`, then return `outcome`.
    Finish { report_error: bool, release_scope: bool, outcome: Outcome },
    /// The runtime's object model is inconsistent: stop the process.
    Abort,
}

/// The decision state of one module bootstrap.
#[derive(Clone, Copy, Debug, PartialEq, Eq, Structural)]
pub struct Bootstrap {
    pub abi: Abi,
    pub phase: Phase,
    pub scope_open: bool,
}

/// What a bootstrap returns when it fails.
pub open spec fn failure_outcome(abi: Abi) -> Outcome {
    match abi {
        Abi::Returning => Outcome::Null,
        Abi::Legacy => Outcome::Nothing,
    }
}

/// What a bootstrap returns when it succeeds.
pub open spec fn success_outcome(abi: Abi) -> Outcome {
    match abi {
        Abi::Returning => Outcome::Module,
        Abi::Legacy => Outcome::Nothing,
    }
}

/// Ends the bootstrap, releasing the scope if it is held.
pub open spec fn finish(s: Bootstrap, report_error: bool, outcome: Outcome) -> (Bootstrap, Action) {
    (
        Bootstrap { phase: Phase::Done, scope_open: false, ..s },
        Action::Finish { report_error, release_scope: s.scope_open, outcome },
    )
}

/// Moves to phase `phase` and asks for `action`.
pub open spec fn advance(s: Bootstrap, phase: Phase, action: Action) -> (Bootstrap, Action) {
    (Bootstrap { phase, ..s }, action)
}

/// The state and action that follow `event` in state `s`. An event that
/// does not fit the phase means the runtime broke its protocol: abort.
pub open spec fn next(s: Bootstrap, event: Event) -> (Bootstrap, Action) {
    let abort = (Bootstrap { phase: Phase::Done, scope_open: false, ..s }, Action::Abort);
    match (s.phase, event) {
        (Phase::Start, Event::Begin) => advance(s, Phase::InitializingProcess, Action::InitProcess),
        (Phase::InitializingProcess, Event::ProcessReady) => match s.abi {
            Abi::Returning => advance(s, Phase::CreatingModule, Action::CreateModule),
            Abi::Legacy => advance(s, Phase::OpeningScope, Action::OpenScope),
        },
        (Phase::CreatingModule, Event::ModuleCreated { ok }) => if !ok {
            finish(s, false, failure_outcome(s.abi))
        } else {
            match s.abi {
                Abi::Returning => advance(s, Phase::OpeningScope, Action::OpenScope),
                Abi::Legacy => advance(s, Phase::WrappingHandle, Action::WrapHandle),
            }
        },
        (Phase::OpeningScope, Event::ScopeOpened) => {
            let t = Bootstrap { scope_open: true, ..s };
            match s.abi {
                Abi::Returning => advance(t, Phase::WrappingHandle, Action::WrapHandle),
                Abi::Legacy => advance(t, Phase::CreatingModule, Action::CreateModule),
            }
        },
        (Phase::WrappingHandle, Event::HandleWrapped { ok }) => if ok {
            advance(s, Phase::SettingDoc, Action::SetDoc)
        } else {
            finish(s, true, failure_outcome(s.abi))
        },
        (Phase::SettingDoc, Event::DocSet { ok }) => if ok {
            advance(s, Phase::RunningInitializer, Action::RunInitializer)
        } else {
            abort
        },
        (Phase::RunningInitializer, Event::InitializerFinished { ok }) => if ok {
            finish(s, false, success_outcome(s.abi))
        } else {
            finish(s, true, failure_outcome(s.abi))
        },
        _ => abort,
    }
}

impl Bootstrap {
    /// A bootstrap that has not begun.
    pub open spec fn initial(abi: Abi) -> Bootstrap {
        Bootstrap { abi, phase: Phase::Start, scope_open: false }
    }

    /// A bootstrap for the interface `abi` that has not begun.
    pub fn new(abi: Abi) -> (r: Bootstrap)
        ensures
            r == Bootstrap::initial(abi),
    {
        Bootstrap { abi, phase: Phase::Start, scope_open: false }
    }

    /// Whether the bootstrap has ended.
    pub fn is_done(&self) -> (r: bool)
        ensures
            r == (self.phase == Phase::Done),
    {
        self.phase == Phase::Done
    }

    fn finish_with(&mut self, report_error: bool, outcome: Outcome) -> (a: Action)
        ensures
            (*final(self), a) == finish(*old(self), report_error, outcome),
    {
        let release_scope = self.scope_open;
        self.phase = Phase::Done;
        self.scope_open = false;
        Action::Finish { report_error, release_scope, outcome }
    }

    fn abort(&mut self) -> (a: Action)
        ensures
            *final(self) == (Bootstrap { phase: Phase::Done, scope_open: false, ..*old(self) }),
            a == Action::Abort,
    {
        self.phase = Phase::Done;
        self.scope_open = false;
        Action::Abort
    }

    fn failure(&self) -> (r: Outcome)
        ensures
            r == failure_outcome(self.abi),
    {
        match self.abi {
            Abi::Returning => Outcome::Null,
            Abi::Legacy => Outcome::Nothing,
        }
    }

    fn success(&self) -> (r: Outcome)
        ensures
            r == success_outcome(self.abi),
    {
        match self.abi {
            Abi::Returning => Outcome::Module,
            Abi::Legacy => Outcome::Nothing,
        }
    }

    /// Takes in what the runtime reports and says what it is to do next.
    pub fn step(&mut self, event: Event) -> (a: Action)
        ensures
            (*final(self), a) == next(*old(self), event),
    {
        match (self.phase, event) {
            (Phase::Start, Event::Begin) => {
                self.phase = Phase::InitializingProcess;
                Action::InitProcess
            },
            (Phase::InitializingProcess, Event::ProcessReady) => match self.abi {
                Abi::Returning => {
                    self.phase = Phase::CreatingModule;
                    Action::CreateModule
                },
                Abi::Legacy => {
                    self.phase = Phase::OpeningScope;
                    Action::OpenScope
                },
            },
            (Phase::CreatingModule, Event::ModuleCreated { ok }) => {
                if !ok {
                    let outcome = self.failure();
                    self.finish_with(false, outcome)
                } else {
                    match self.abi {
                        Abi::Returning => {
                            self.phase = Phase::OpeningScope;
                            Action::OpenScope
                        },
                        Abi::Legacy => {
                            self.phase = Phase::WrappingHandle;
                            Action::WrapHandle
                        },
                    }
                }
            },
            (Phase::OpeningScope, Event::ScopeOpened) => {
                self.scope_open = true;
                match self.abi {
                    Abi::Returning => {
                        self.phase = Phase::WrappingHandle;
                        Action::WrapHandle
                    },
                    Abi::Legacy => {
                        self.phase = Phase::CreatingModule;
                        Action::CreateModule
                    },
                }
            },
            (Phase::WrappingHandle, Event::HandleWrapped { ok }) => {
                if ok {
                    self.phase = Phase::SettingDoc;
                    Action::SetDoc
                } else {
                    let outcome = self.failure();
                    self.finish_with(true, outcome)
                }
            },
            (Phase::SettingDoc, Event::DocSet { ok }) => {
                if ok {
                    self.phase = Phase::RunningInitializer;
                    Action::RunInitializer
                } else {
                    self.abort()
                }
            },
            (Phase::RunningInitializer, Event::InitializerFinished { ok }) => {
                if ok {
                    let outcome = self.success();
                    self.finish_with(false, outcome)
                } else {
                    let outcome = self.failure();
                    self.finish_with(true, outcome)
                }
            },
            _ => self.abort(),
        }
    }
}

} // verus!
