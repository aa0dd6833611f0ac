//! Activation of the modem: from a powered-on modem to a wireless
//! connection, phase by phase. Each phase either runs a list of steps (see
//! [`super::Procedure`]), waits for registration, or asks the network for
//! an APN; the one driving the modem does that and reports how it went.

use vstd::prelude::*;
use crate::error::Error;
use super::{
    activation_steps, activation_steps_of, is_connection_plan, post_registration_steps,
    post_registration_steps_of, registration_steps, registration_steps_of, Modem,
    RadioAccessTechnology, RegistrationSearch, SearchAction, Step, REGISTRATION_TIMEOUT_MS,
    promoted,
};

verus! {

/// Where an activation stands.
#[derive(Clone, Copy, Debug, PartialEq, Eq, Structural)]
pub enum ActivationPhase {
    /// Flow control, echo, error reports and registration reports.
    Prepare,
    /// Selecting a technology of the priority list.
    Select(RadioAccessTechnology),
    /// Waiting for registration: with the technology being tried, or `None`
    /// where the modem picks its network itself.
    AwaitRegistration(Option<RadioAccessTechnology>),
    /// Several connections at once, earlier connections shut.
    PostRegistration,
    /// Asking the network for an APN.
    QueryApn,
    /// Authenticating and bringing the wireless connection up.
    Connect,
    /// Over.
    Done,
}

/// What the one driving the modem does next.
#[derive(Debug)]
pub enum ActivationAction {
    /// Run these steps and report the result.
    RunSteps(Vec<Step<'static>>),
    /// Wait up to `timeout_ms` for the modem to register, and report whether it did.
    AwaitRegistration { timeout_ms: u64 },
    /// Ask the network for its APN (`AT+CGNAPN`) and report the answer.
    QueryNetworkApn,
    /// Activation is over.
    Finished(Result<(), Error>),
}

/// How the last action went.
pub enum ActivationEvent {
    /// The steps ran: `Ok`, or the error that ended them.
    StepsDone(Result<(), Error>),
    /// The modem registered in time, or not.
    Registration(bool),
    /// The network's answer: the APN it suggests, if any, or the error of the request.
    NetworkApn(Result<Option<heapless::String<63>>, Error>),
}

/// The kind of event the phase waits for.
pub open spec fn expects(phase: ActivationPhase, event: ActivationEvent) -> bool {
    match phase {
        ActivationPhase::Prepare | ActivationPhase::Select(_) | ActivationPhase::PostRegistration
        | ActivationPhase::Connect => event is StepsDone,
        ActivationPhase::AwaitRegistration(_) => event is Registration,
        ActivationPhase::QueryApn => event is NetworkApn,
        ActivationPhase::Done => false,
    }
}

/// The phase after `tried` technologies of `priority` timed out, and whether
/// one is left to select.
pub open spec fn select_or_fail(
    phase: ActivationPhase,
    action: ActivationAction,
    priority: Seq<RadioAccessTechnology>,
    tried: nat,
) -> bool {
    if tried < priority.len() {
        &&& phase == ActivationPhase::Select(priority[tried as int])
        &&& (action matches ActivationAction::RunSteps(steps) && steps@ == registration_steps_of(
            priority[tried as int],
        ))
    } else {
        &&& phase == ActivationPhase::Done
        &&& (action matches ActivationAction::Finished(r) && r == Err::<(), Error>(Error::Timeout))
    }
}

/// The phase after registration: the post-registration steps.
pub open spec fn post_registration(phase: ActivationPhase, action: ActivationAction) -> bool {
    &&& phase == ActivationPhase::PostRegistration
    &&& (action matches ActivationAction::RunSteps(steps) && steps@ == post_registration_steps_of())
}

/// The phase once the modem has an APN: the connection steps.
pub open spec fn connecting(phase: ActivationPhase, action: ActivationAction, modem: Modem) -> bool {
    &&& phase == ActivationPhase::Connect
    &&& (action matches ActivationAction::RunSteps(steps) && is_connection_plan(steps@, modem))
}

/// The end of activation with `r`.
pub open spec fn finished(phase: ActivationPhase, action: ActivationAction, r: Result<(), Error>) -> bool {
    &&& phase == ActivationPhase::Done
    &&& (action matches ActivationAction::Finished(x) && x == r)
}

/// An activation in progress.
pub struct Activation {
    phase: ActivationPhase,
    search: RegistrationSearch,
}

impl Activation {
    pub closed spec fn phase(&self) -> ActivationPhase {
        self.phase
    }

    /// How many technologies of the priority list timed out.
    pub closed spec fn tried(&self) -> nat {
        self.search.spec_tried()
    }

    /// Where the activation stands.
    pub fn current_phase(&self) -> (r: ActivationPhase)
        ensures
            r == self.phase(),
    {
        self.phase
    }

    /// Starts with the preparation steps.
    pub fn start() -> (r: (Activation, ActivationAction))
        ensures
            r.0.phase() == ActivationPhase::Prepare,
            r.0.tried() == 0,
            r.1 matches ActivationAction::RunSteps(steps) && steps@ == activation_steps_of(),
    {
        (
            Activation { phase: ActivationPhase::Prepare, search: RegistrationSearch::new() },
            ActivationAction::RunSteps(activation_steps()),
        )
    }

    /// Follows the registration search: select the technology it tries, or
    /// end with its failure.
    fn follow(&mut self, next: SearchAction) -> (action: ActivationAction)
        requires
            !(next is Registered),
        ensures
            next matches SearchAction::Try(rat) ==> final(self).phase() == ActivationPhase::Select(rat)
                && (action matches ActivationAction::RunSteps(steps) && steps@
                == registration_steps_of(rat)),
            next matches SearchAction::Failed(e) ==> finished(final(self).phase(), action, Err(e)),
            final(self).tried() == old(self).tried(),
    {
        match next {
            SearchAction::Try(rat) => {
                self.phase = ActivationPhase::Select(rat);
                ActivationAction::RunSteps(registration_steps(rat))
            },
            SearchAction::Failed(e) => {
                self.phase = ActivationPhase::Done;
                ActivationAction::Finished(Err(e))
            },
            SearchAction::Registered(_) => vstd::pervasive::unreached(),
        }
    }

    /// The connection steps, or the end where the modem has no APN.
    fn connect(&mut self, modem: &Modem) -> (action: ActivationAction)
        ensures
            final(self).tried() == old(self).tried(),
            modem.spec_apn() is Some ==> connecting(final(self).phase(), action, *modem),
            modem.spec_apn() is None ==> finished(final(self).phase(), action, Err(Error::NoApn)),
    {
        match modem.connection_steps() {
            Ok(steps) => {
                self.phase = ActivationPhase::Connect;
                ActivationAction::RunSteps(steps)
            },
            Err(e) => {
                self.phase = ActivationPhase::Done;
                ActivationAction::Finished(Err(e))
            },
        }
    }

    /// Takes how the last action went and gives the next one. A failed
    /// phase ends the activation with its error. After preparation, a modem
    /// that registers automatically selects the technologies of its priority
    /// list in turn, each given its timeout, and the one that registers is
    /// promoted; otherwise the modem is given [`REGISTRATION_TIMEOUT_MS`].
    /// After registration come the post-registration steps, then, where the
    /// modem has no APN, the network's; then the connection steps.
    pub fn on_event(&mut self, modem: &mut Modem, event: ActivationEvent) -> (action: ActivationAction)
        requires
            old(modem).wf(),
            expects(old(self).phase(), event),
        ensures
            final(modem).wf(),
            final(modem).spec_username() == old(modem).spec_username(),
            final(modem).spec_password() == old(modem).spec_password(),
            final(modem).automatic() == old(modem).automatic(),
            final(modem).user_priority() == old(modem).user_priority(),
            final(modem).auto_reg_timeout() == old(modem).auto_reg_timeout(),
            !(old(self).phase() matches ActivationPhase::AwaitRegistration(Some(_))) ==> final(modem).priority() == old(modem).priority(),
            !(old(self).phase() is QueryApn) ==> final(modem).spec_apn() == old(modem).spec_apn(),
            match (old(self).phase(), event) {
                (ActivationPhase::Prepare, ActivationEvent::StepsDone(Err(e))) => finished(
                    final(self).phase(),
                    action,
                    Err(e),
                ),
                (ActivationPhase::Prepare, ActivationEvent::StepsDone(Ok(()))) => if old(modem).automatic() {
                    final(self).tried() == 0 && select_or_fail(
                        final(self).phase(),
                        action,
                        old(modem).priority(),
                        0,
                    )
                } else {
                    final(self).phase() == ActivationPhase::AwaitRegistration(None) && (action
                        matches ActivationAction::AwaitRegistration { timeout_ms }
                        && timeout_ms == REGISTRATION_TIMEOUT_MS)
                },
                (ActivationPhase::Select(_), ActivationEvent::StepsDone(Err(e))) => finished(
                    final(self).phase(),
                    action,
                    Err(e),
                ),
                (ActivationPhase::Select(rat), ActivationEvent::StepsDone(Ok(()))) => {
                    &&& final(self).phase() == ActivationPhase::AwaitRegistration(Some(rat))
                    &&& final(self).tried() == old(self).tried()
                    &&& (action matches ActivationAction::AwaitRegistration { timeout_ms }
                        && timeout_ms == old(modem).auto_reg_timeout())
                },
                (ActivationPhase::AwaitRegistration(None), ActivationEvent::Registration(true)) =>
                    post_registration(final(self).phase(), action),
                (ActivationPhase::AwaitRegistration(None), ActivationEvent::Registration(false)) =>
                    finished(final(self).phase(), action, Err(Error::Timeout)),
                (
                    ActivationPhase::AwaitRegistration(Some(rat)),
                    ActivationEvent::Registration(true),
                ) => {
                    &&& post_registration(final(self).phase(), action)
                    &&& final(modem).priority() == promoted(old(modem).priority(), rat)
                },
                (
                    ActivationPhase::AwaitRegistration(Some(_)),
                    ActivationEvent::Registration(false),
                ) => {
                    &&& final(modem).priority() == old(modem).priority()
                    &&& if old(self).tried() < old(modem).priority().len() {
                        &&& final(self).tried() == old(self).tried() + 1
                        &&& select_or_fail(
                            final(self).phase(),
                            action,
                            old(modem).priority(),
                            old(self).tried() + 1,
                        )
                    } else {
                        finished(final(self).phase(), action, Err(Error::Timeout))
                    }
                },
                (ActivationPhase::PostRegistration, ActivationEvent::StepsDone(Err(e))) => finished(
                    final(self).phase(),
                    action,
                    Err(e),
                ),
                (ActivationPhase::PostRegistration, ActivationEvent::StepsDone(Ok(()))) => if old(modem).spec_apn() is None {
                    final(self).phase() == ActivationPhase::QueryApn && (action
                        is QueryNetworkApn)
                } else {
                    connecting(final(self).phase(), action, *final(modem))
                },
                (ActivationPhase::QueryApn, ActivationEvent::NetworkApn(Err(e))) => {
                    &&& finished(final(self).phase(), action, Err(e))
                    &&& final(modem).spec_apn() == old(modem).spec_apn()
                },
                (ActivationPhase::QueryApn, ActivationEvent::NetworkApn(Ok(None))) => {
                    &&& finished(final(self).phase(), action, Err(Error::NoApn))
                    &&& final(modem).spec_apn() == old(modem).spec_apn()
                },
                (ActivationPhase::QueryApn, ActivationEvent::NetworkApn(Ok(Some(apn)))) => {
                    &&& final(modem).spec_apn() == Some(apn)
                    &&& connecting(final(self).phase(), action, *final(modem))
                },
                (ActivationPhase::Connect, ActivationEvent::StepsDone(r)) => finished(
                    final(self).phase(),
                    action,
                    r,
                ),
                _ => false,
            },
    {
        match event {
            ActivationEvent::StepsDone(result) => match self.phase {
                ActivationPhase::Prepare => match result {
                    Err(e) => {
                        self.phase = ActivationPhase::Done;
                        ActivationAction::Finished(Err(e))
                    },
                    Ok(()) => if modem.automatic_registration() {
                        let (search, next) = RegistrationSearch::start(modem);
                        self.search = search;
                        self.follow(next)
                    } else {
                        self.phase = ActivationPhase::AwaitRegistration(None);
                        ActivationAction::AwaitRegistration { timeout_ms: REGISTRATION_TIMEOUT_MS }
                    },
                },
                ActivationPhase::Select(rat) => match result {
                    Err(e) => {
                        self.phase = ActivationPhase::Done;
                        ActivationAction::Finished(Err(e))
                    },
                    Ok(()) => {
                        self.phase = ActivationPhase::AwaitRegistration(Some(rat));
                        ActivationAction::AwaitRegistration { timeout_ms: modem.auto_reg_timeout_ms() }
                    },
                },
                ActivationPhase::PostRegistration => match result {
                    Err(e) => {
                        self.phase = ActivationPhase::Done;
                        ActivationAction::Finished(Err(e))
                    },
                    Ok(()) => if modem.network_apn_needed() {
                        self.phase = ActivationPhase::QueryApn;
                        ActivationAction::QueryNetworkApn
                    } else {
                        self.connect(modem)
                    },
                },
                _ => {
                    self.phase = ActivationPhase::Done;
                    ActivationAction::Finished(result)
                },
            },
            ActivationEvent::Registration(registered) => {
                let phase = self.phase;
                match phase {
                    ActivationPhase::AwaitRegistration(Some(rat)) => {
                        if registered {
                            modem.promote(rat);
                            self.phase = ActivationPhase::PostRegistration;
                            ActivationAction::RunSteps(post_registration_steps())
                        } else if modem.registration_candidate(self.search.tried()).is_some() {
                            let next = self.search.on_result(modem, Ok(false));
                            self.follow(next)
                        } else {
                            self.phase = ActivationPhase::Done;
                            ActivationAction::Finished(Err(Error::Timeout))
                        }
                    },
                    _ => {
                        if registered {
                            self.phase = ActivationPhase::PostRegistration;
                            ActivationAction::RunSteps(post_registration_steps())
                        } else {
                            self.phase = ActivationPhase::Done;
                            ActivationAction::Finished(Err(Error::Timeout))
                        }
                    },
                }
            },
            ActivationEvent::NetworkApn(answer) => match answer {
                Err(e) => {
                    self.phase = ActivationPhase::Done;
                    ActivationAction::Finished(Err(e))
                },
                Ok(apn) => match modem.adopt_network_apn(apn) {
                    Ok(()) => self.connect(modem),
                    Err(e) => {
                        self.phase = ActivationPhase::Done;
                        ActivationAction::Finished(Err(e))
                    },
                },
            },
        }
    }
}

} // verus!
