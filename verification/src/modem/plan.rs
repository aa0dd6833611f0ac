//! Command plans: the requests a procedure sends to the modem, how often
//! each may be tried, and the procedure that walks through them.

use vstd::prelude::*;
use crate::commands::{
    AppNetworkMode, XtraMode, BandMode, ClockMode, EdrxParams, ErrorReportMode, FlowControl, PreferredConnectionMode, RiMode,
};
use crate::error::Error;

verus! {

/// The default timeout of AT commands, in milliseconds.
pub const AT_DEFAULT_TIMEOUT_MS: u32 = 5000;

/// Which registration report is switched on.
#[derive(Clone, Copy, Debug, PartialEq, Eq, Structural)]
pub enum RegistrationUrc {
    /// `AT+CREG`: GSM registration, with location.
    CregWithLocation,
    /// `AT+CEREG`: LTE registration.
    Cereg,
    /// `AT+CGREG`: GPRS registration, with location.
    CgregWithLocation,
}

/// A request a procedure sends to the modem.
#[derive(Debug)]
pub enum ModemRequest<'a> {
    SetFlowControl(FlowControl),
    SetEcho(bool),
    SetSlowClock(ClockMode),
    At,
    SetBaudRate(u32),
    ConfigureCmeErrors(ErrorReportMode),
    SetNetworkMode(PreferredConnectionMode),
    SetNbMode(BandMode),
    ConfigureRiPin(RiMode),
    EnableVBatCheck(bool),
    ConfigureEdrx(EdrxParams),
    ConfigureRegistrationUrc(RegistrationUrc),
    EnableMultiIpConnection(bool),
    ShutConnections,
    GetNetworkApn,
    StartTask { apn: heapless::String<63>, username: &'a str, password: &'a str },
    StartGprs,
    GetLocalIpExt,
    SetBearerApn(heapless::String<63>),
    OpenBearer(heapless::String<63>),
    SetGprsBearerProfileId(u8),
    SynchronizeNetworkTime { ntp_server: &'a str, timezone: u16, cid: u8 },
    ExecuteNtp,
    SetGnssPower(bool),
    ConfigureGnssUrc { period: u8 },
    SetGnssWorkMode { glonass: bool, beidou: bool, galilean: bool },
    /// Bring the application network up or down with this APN.
    SetAppNetwork { mode: AppNetworkMode, apn: heapless::String<63> },
    /// Download the file at `url` over HTTP to `file_path` on the modem.
    DownloadToFileSystem { url: &'a str, file_path: &'a str },
    /// Copy the downloaded XTRA file to where the GNSS engine reads it.
    CopyXtraFile,
    /// Switch the use of the XTRA file on or off.
    SetGnssXtra(XtraMode),
    /// Cold-start the GNSS engine.
    GnssColdStart,
}

/// How a step of a procedure treats a failed request.
#[derive(Clone, Copy, Debug, PartialEq, Eq, Structural)]
pub enum Policy {
    /// A failure ends the procedure with its error.
    Required,
    /// Up to `attempts` tries, `delay_ms` apart; if all fail, the procedure
    /// goes on all the same.
    BestEffort { attempts: u8, delay_ms: u32 },
    /// Up to `attempts` tries, `delay_ms` apart; if all fail, the procedure
    /// ends with the last error.
    Retried { attempts: u8, delay_ms: u32 },
}

/// One request of a procedure, with its timeout and its policy.
#[derive(Debug)]
pub struct Step<'a> {
    pub request: ModemRequest<'a>,
    pub timeout_ms: u32,
    pub policy: Policy,
}

/// What follows the answer to a step's request.
#[derive(Clone, Copy, Debug, PartialEq, Eq, Structural)]
pub enum StepOutcome {
    /// Go on with the next step.
    Next,
    /// Try the same request again after `delay_ms`.
    RetryAfter(u32),
    /// End the procedure with this error.
    Abort(Error),
}

/// What follows `result`, the answer to the `made`-th try of a step with
/// `policy`.
pub open spec fn step_outcome(policy: Policy, made: nat, result: Result<(), Error>) -> StepOutcome {
    match result {
        Ok(()) => StepOutcome::Next,
        Err(e) => match policy {
            Policy::Required => StepOutcome::Abort(e),
            Policy::BestEffort { attempts, delay_ms } => if made < attempts {
                StepOutcome::RetryAfter(delay_ms)
            } else {
                StepOutcome::Next
            },
            Policy::Retried { attempts, delay_ms } => if made < attempts {
                StepOutcome::RetryAfter(delay_ms)
            } else {
                StepOutcome::Abort(e)
            },
        },
    }
}

/// Decides what follows `result`, the answer to the `made`-th try of a step
/// with `policy`.
fn decide(policy: Policy, made: u8, result: Result<(), Error>) -> (r: StepOutcome)
    ensures
        r == step_outcome(policy, made as nat, result),
{
    match result {
        Ok(()) => StepOutcome::Next,
        Err(e) => match policy {
            Policy::Required => StepOutcome::Abort(e),
            Policy::BestEffort { attempts, delay_ms } => if made < attempts {
                StepOutcome::RetryAfter(delay_ms)
            } else {
                StepOutcome::Next
            },
            Policy::Retried { attempts, delay_ms } => if made < attempts {
                StepOutcome::RetryAfter(delay_ms)
            } else {
                StepOutcome::Abort(e)
            },
        },
    }
}

/// What the one running a procedure does next.
#[derive(Clone, Copy, Debug, PartialEq, Eq)]
pub enum ProcedureAction {
    /// Send the request of step `0` and report its answer.
    Run(usize),
    /// Wait `delay_ms`, then send the request of `step` again.
    RunAfter { delay_ms: u32, step: usize },
    /// The procedure is over.
    Finished(Result<(), Error>),
}

/// A list of steps run in order, each as its policy says.
pub struct Procedure<'a> {
    steps: Vec<Step<'a>>,
    index: usize,
    tries: u8,
    finished: bool,
}

impl<'a> Procedure<'a> {
    pub closed spec fn steps(&self) -> Seq<Step<'a>> {
        self.steps@
    }

    /// The step being run.
    pub closed spec fn index(&self) -> nat {
        self.index as nat
    }

    /// How many times the current step's request was sent before.
    pub closed spec fn tries(&self) -> nat {
        self.tries as nat
    }

    pub closed spec fn finished(&self) -> bool {
        self.finished
    }

    /// The step being run is a step of the list, and it sent its request
    /// fewer times than its policy allows.
    pub open spec fn wf(&self) -> bool {
        &&& self.tries() < 255
        &&& !self.finished() ==> self.index() < self.steps().len()
        &&& !self.finished() ==> self.tries() < attempts_of(self.steps()[self.index() as int].policy)
    }

    /// Starts a procedure: run the first step, or finish at once when there
    /// is none.
    pub fn new(steps: Vec<Step<'a>>) -> (r: (Procedure<'a>, ProcedureAction))
        ensures
            r.0.wf(),
            r.0.steps() == steps@,
            r.0.index() == 0,
            r.0.tries() == 0,
            steps@.len() == 0 ==> r.0.finished() && r.1 == ProcedureAction::Finished(Ok(())),
            steps@.len() > 0 ==> !r.0.finished() && r.1 == ProcedureAction::Run(0),
    {
        let empty = steps.len() == 0;
        let p = Procedure { steps, index: 0, tries: 0, finished: empty };
        if empty {
            (p, ProcedureAction::Finished(Ok(())))
        } else {
            (p, ProcedureAction::Run(0))
        }
    }

    /// The step at `i`.
    pub fn step(&self, i: usize) -> (r: &Step<'a>)
        requires
            i < self.steps().len(),
        ensures
            *r == self.steps()[i as int],
    {
        &self.steps[i]
    }

    /// Takes the answer to the current step's request and says what comes
    /// next: the step's outcome under its policy decides between the next
    /// step (or the end, after the last), another try, and the end with an
    /// error.
    pub fn on_result(&mut self, result: Result<(), Error>) -> (action: ProcedureAction)
        requires
            old(self).wf(),
            !old(self).finished(),
        ensures
            final(self).wf(),
            final(self).steps() == old(self).steps(),
            ({
                let i = old(self).index();
                let policy = old(self).steps()[i as int].policy;
                match step_outcome(policy, old(self).tries() + 1, result) {
                    StepOutcome::Next => if i + 1 < old(self).steps().len() {
                        action == ProcedureAction::Run((i + 1) as usize) && !final(self).finished()
                            && final(self).index() == i + 1 && final(self).tries() == 0
                    } else {
                        action == ProcedureAction::Finished(Ok(())) && final(self).finished()
                    },
                    StepOutcome::RetryAfter(d) => action == (ProcedureAction::RunAfter {
                        delay_ms: d,
                        step: i as usize,
                    }) && !final(self).finished() && final(self).index() == i && final(self).tries()
                        == old(self).tries() + 1,
                    StepOutcome::Abort(e) => action == ProcedureAction::Finished(Err(e))
                        && final(self).finished(),
                }
            }),
    {
        let i = self.index;
        let n = self.steps.len();
        let outcome = decide(self.steps[i].policy, self.tries + 1, result);
        match outcome {
            StepOutcome::Next => {
                self.tries = 0;
                if i + 1 < n {
                    self.index = i + 1;
                    ProcedureAction::Run(i + 1)
                } else {
                    self.finished = true;
                    ProcedureAction::Finished(Ok(()))
                }
            },
            StepOutcome::RetryAfter(d) => {
                proof {
                    let policy = self.steps@[i as int].policy;
                    assert(self.tries + 1 < 255) by {
                        match policy {
                            Policy::Required => {},
                            Policy::BestEffort { attempts, .. } => {},
                            Policy::Retried { attempts, .. } => {},
                        }
                    }
                }
                self.tries = self.tries + 1;
                ProcedureAction::RunAfter { delay_ms: d, step: i }
            },
            StepOutcome::Abort(e) => {
                self.finished = true;
                ProcedureAction::Finished(Err(e))
            },
        }
    }
}


/// How many times a step with `policy` may send its request.
pub open spec fn attempts_of(policy: Policy) -> nat {
    match policy {
        Policy::Required => 1,
        Policy::BestEffort { attempts, .. } => if attempts == 0 {
            1
        } else {
            attempts as nat
        },
        Policy::Retried { attempts, .. } => if attempts == 0 {
            1
        } else {
            attempts as nat
        },
    }
}

/// A step is never retried once it sent its request as often as its
/// policy allows, and a success always moves on: every step ends.
pub proof fn lemma_step_attempts_bounded(policy: Policy, made: nat, result: Result<(), Error>)
    requires
        made >= 1,
    ensures
        step_outcome(policy, made, result) is RetryAfter ==> made < attempts_of(policy),
        result is Ok ==> step_outcome(policy, made, result) == StepOutcome::Next,
        made >= attempts_of(policy) && result is Err ==> match policy {
            Policy::BestEffort { .. } => step_outcome(policy, made, result) == StepOutcome::Next,
            _ => step_outcome(policy, made, result) == StepOutcome::Abort(result->Err_0),
        },
{
}

} // verus!
