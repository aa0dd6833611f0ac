//! The modem's configuration and the decisions taken while bringing it up:
//! which radio access technologies to try and in what order, which APN to
//! authenticate with, and the command plans of initialisation and activation.

mod activation;
pub use activation::{
    connecting, expects, finished, post_registration, select_or_fail, Activation, ActivationAction,
    ActivationEvent, ActivationPhase,
};
mod command;
pub use command::{chunk_items, chunks_of, RawAtCommand, RAW_CHUNK_CAPACITY};
mod context;
pub use context::{RxPipe, TcpContext, TcpSlot, TcpToken};
mod dispatch;
pub use dispatch::{has_command, request_exchanged, run_request, step_result};
mod plan;
pub use plan::{
    attempts_of, lemma_step_attempts_bounded,
    step_outcome, ModemRequest, Policy, Procedure, ProcedureAction, RegistrationUrc, Step,
    StepOutcome, AT_DEFAULT_TIMEOUT_MS,
};

use vstd::prelude::*;
use crate::commands::{
    AppNetworkMode, XtraMode, BandMode, ClockMode, EdrxBandMode, EdrxInterval, EdrxMode, EdrxParams, ErrorReportMode,
    FlowControl, FlowControlMode, PreferredConnectionMode, RiMode,
};
use crate::commands::{
    AtCommand, AtExecute, AtRead, Ccid, Cops, Cpsi, Csq, Iccid,
    OperatorInfo, SignalReading, SystemInfo,
};
use crate::error::Error;
use crate::serial::{SerialReadTimeout, SerialWrite};
use crate::slot::Slot;
use vstd::string::StringSliceAdditionalSpecFns;
use crate::util::StateSignal;

verus! {

#[verifier::external_type_specification]
#[verifier::external_body]
#[verifier::reject_recursive_types(T)]
pub struct ExVec<T, const N: usize>(heapless::Vec<T, N>);

#[verifier::external_type_specification]
#[verifier::external_body]
pub struct ExString<const N: usize>(heapless::String<N>);

/// Type-state marker: the modem has not been initialised.
pub struct Uninitialized;

/// Type-state marker: the modem is powered off.
pub struct Disabled;

/// Type-state marker: the modem is powered on.
pub struct Enabled;

/// Type-state marker: the modem sleeps.
pub struct Sleeping;

/// A radio access technology the modem can register with.
#[derive(PartialEq, Eq, Structural, Debug, Clone, Copy)]
pub enum RadioAccessTechnology {
    LteCatM1,
    LteNbIot,
    Gsm,
}

/// The technologies a priority list holds, first choice first.
pub uninterp spec fn priority_items(v: heapless::Vec<RadioAccessTechnology, 3>) -> Seq<
    RadioAccessTechnology,
>;

/// The text an APN holds.
pub uninterp spec fn apn_text(s: heapless::String<63>) -> Seq<char>;

/// `heapless::Vec::from_slice`: a vector holding `items` in order; `Err`
/// where they do not fit in its capacity of three.
#[verifier::external_body]
fn priority_from_slice(items: &[RadioAccessTechnology]) -> (r: Result<
    heapless::Vec<RadioAccessTechnology, 3>,
    (),
>)
    ensures
        items@.len() <= 3 ==> r is Ok && priority_items(r->Ok_0) == items@,
        items@.len() > 3 ==> r is Err,
{
    heapless::Vec::from_slice(items)
}

/// `heapless::Vec::as_slice`: the items, in order; a vector never holds
/// more items than its capacity of three.
#[verifier::external_body]
fn priority_as_slice(v: &heapless::Vec<RadioAccessTechnology, 3>) -> (r: &[RadioAccessTechnology])
    ensures
        r@ == priority_items(*v),
        r@.len() <= 3,
{
    v.as_slice()
}

/// `heapless::Vec::remove`: takes out the item at `index`; those after it
/// move one place to the front.
#[verifier::external_body]
fn priority_remove(v: &mut heapless::Vec<RadioAccessTechnology, 3>, index: usize) -> (r:
    RadioAccessTechnology)
    requires
        index < priority_items(*old(v)).len(),
    ensures
        r == priority_items(*old(v))[index as int],
        priority_items(*final(v)) == priority_items(*old(v)).remove(index as int),
{
    v.remove(index)
}

/// `heapless::Vec::insert`: puts `x` at `index`, moving the items from there
/// one place back; where the vector is full it hands `x` back and stays as it
/// was.
#[verifier::external_body]
fn priority_insert(
    v: &mut heapless::Vec<RadioAccessTechnology, 3>,
    index: usize,
    x: RadioAccessTechnology,
) -> (r: Result<(), RadioAccessTechnology>)
    requires
        index <= priority_items(*old(v)).len() <= 3,
    ensures
        priority_items(*old(v)).len() == 3 ==> r is Err && r->Err_0 == x
            && priority_items(*final(v)) == priority_items(*old(v)),
        priority_items(*old(v)).len() < 3 ==> r is Ok && priority_items(*final(v)) == priority_items(
            *old(v),
        ).insert(index as int, x),
{
    v.insert(index, x)
}

/// `heapless::Vec::clone`: a vector with the same items.
#[verifier::external_body]
fn priority_clone(v: &heapless::Vec<RadioAccessTechnology, 3>) -> (r: heapless::Vec<
    RadioAccessTechnology,
    3,
>)
    ensures
        priority_items(r) == priority_items(*v),
{
    v.clone()
}

/// `heapless::String::clone`: a string with the same text.
#[verifier::external_body]
pub(crate) fn apn_clone(s: &heapless::String<63>) -> (r: heapless::String<63>)
    ensures
        apn_text(r) == apn_text(*s),
{
    s.clone()
}

/// The order tried when none is configured: LTE Cat-M, then GSM, then NB-IoT.
pub open spec fn default_priority() -> Seq<RadioAccessTechnology> {
    seq![
        RadioAccessTechnology::LteCatM1,
        RadioAccessTechnology::Gsm,
        RadioAccessTechnology::LteNbIot,
    ]
}

/// A priority list holding [`default_priority`].
fn default_priority_list() -> (r: heapless::Vec<RadioAccessTechnology, 3>)
    ensures
        priority_items(r) == default_priority(),
{
    let items = [
        RadioAccessTechnology::LteCatM1,
        RadioAccessTechnology::Gsm,
        RadioAccessTechnology::LteNbIot,
    ];
    let r = priority_from_slice(&items);
    assert(items@ =~= default_priority());
    match r {
        Ok(v) => v,
        Err(()) => vstd::pervasive::unreached(),
    }
}

/// How long each technology is given to register before the next is
/// tried, when no timeout is configured: two minutes.
pub const AUTO_REGISTRATION_TIMEOUT_MS: u64 = 120000;

/// How long a registration without a priority list may take: ten minutes.
pub const REGISTRATION_TIMEOUT_MS: u64 = 600000;

/// How the modem picks its network.
pub enum NetworkModeConfig {
    /// Goes through the priority list in order and registers with the first
    /// technology that works; that one is tried first the next time.
    Automatic {
        /// `None` keeps the order LTE Cat-M, GSM, NB-IoT.
        priority: Option<heapless::Vec<RadioAccessTechnology, 3>>,
        /// How long each technology is given before the next is tried.
        timeout_ms: u64,
    },
    /// The modem's own network and band selection.
    Manual { network_mode: PreferredConnectionMode, nb_mode: BandMode },
}

/// Configuration of Extended Discontinuous Reception mode.
#[derive(Clone, Copy, Debug, PartialEq, Eq, Structural)]
pub enum EDRXConfig {
    Disabled,
    Enabled { auto_report: bool, act_type: EdrxBandMode, cycle_length: EdrxInterval },
}

/// The `AT+CEDRXS` parameters that stand for `config`.
pub open spec fn edrx_params_of(config: EDRXConfig) -> EdrxParams {
    match config {
        EDRXConfig::Disabled => EdrxParams {
            mode: EdrxMode::Disable,
            band: EdrxBandMode::CatM,
            interval: EdrxInterval::S5_12,
        },
        EDRXConfig::Enabled { auto_report, act_type, cycle_length } => EdrxParams {
            mode: if auto_report {
                EdrxMode::AutoReport
            } else {
                EdrxMode::Enable
            },
            band: act_type,
            interval: cycle_length,
        },
    }
}

impl EDRXConfig {
    /// The `AT+CEDRXS` parameters: disabled eDRX sends mode 0 with band and
    /// cycle that the modem ignores.
    pub fn to_params(&self) -> (r: EdrxParams)
        ensures
            r == edrx_params_of(*self),
    {
        match *self {
            EDRXConfig::Disabled => EdrxParams {
                mode: EdrxMode::Disable,
                band: EdrxBandMode::CatM,
                interval: EdrxInterval::S5_12,
            },
            EDRXConfig::Enabled { auto_report, act_type, cycle_length } => EdrxParams {
                mode: if auto_report {
                    EdrxMode::AutoReport
                } else {
                    EdrxMode::Enable
                },
                band: act_type,
                interval: cycle_length,
            },
        }
    }
}

/// Configure cellular mobile communication and eDRX.
pub struct RegistrationConfig {
    pub network_mode: NetworkModeConfig,
    pub edrx: EDRXConfig,
}

impl Default for RegistrationConfig {
    /// Automatic registration in the default order, two minutes per
    /// technology, eDRX disabled.
    fn default() -> (c: RegistrationConfig)
        ensures
            c.network_mode matches NetworkModeConfig::Automatic { priority, timeout_ms }
                && priority is None && timeout_ms == AUTO_REGISTRATION_TIMEOUT_MS,
            c.edrx == EDRXConfig::Disabled,
    {
        RegistrationConfig {
            network_mode: NetworkModeConfig::Automatic {
                priority: None,
                timeout_ms: AUTO_REGISTRATION_TIMEOUT_MS,
            },
            edrx: EDRXConfig::Disabled,
        }
    }
}

/// The requests that select `rat` before waiting for registration.
pub open spec fn registration_requests_of(rat: RadioAccessTechnology) -> Seq<ModemRequest<'static>> {
    match rat {
        RadioAccessTechnology::LteCatM1 => seq![
            ModemRequest::SetNetworkMode(PreferredConnectionMode::Lte),
            ModemRequest::SetNbMode(BandMode::CatM),
        ],
        RadioAccessTechnology::Gsm => seq![ModemRequest::SetNetworkMode(PreferredConnectionMode::Gsm)],
        RadioAccessTechnology::LteNbIot => seq![
            ModemRequest::SetNetworkMode(PreferredConnectionMode::Lte),
            ModemRequest::SetNbMode(BandMode::NbIot),
        ],
    }
}

/// The requests that select `rat` before waiting for registration: LTE
/// with Cat-M or NB-IoT, or GSM.
pub fn registration_requests(rat: RadioAccessTechnology) -> (r: Vec<ModemRequest<'static>>)
    ensures
        r@ == registration_requests_of(rat),
{
    let r = match rat {
        RadioAccessTechnology::LteCatM1 => vec![
            ModemRequest::SetNetworkMode(PreferredConnectionMode::Lte),
            ModemRequest::SetNbMode(BandMode::CatM),
        ],
        RadioAccessTechnology::Gsm => vec![ModemRequest::SetNetworkMode(PreferredConnectionMode::Gsm)],
        RadioAccessTechnology::LteNbIot => vec![
            ModemRequest::SetNetworkMode(PreferredConnectionMode::Lte),
            ModemRequest::SetNbMode(BandMode::NbIot),
        ],
    };
    assert(r@ =~= registration_requests_of(rat));
    r
}

/// The priority list after registering with `active`: `active` moves to
/// the front, the others keep their order; a list without `active` stays.
pub open spec fn promoted(items: Seq<RadioAccessTechnology>, active: RadioAccessTechnology) -> Seq<
    RadioAccessTechnology,
> {
    match items.index_of_first(active) {
        Some(k) => seq![active] + items.remove(k),
        None => items,
    }
}

/// The modem's configuration and what it learned while registering.
pub struct Modem {
    apn: Option<heapless::String<63>>,
    ap_username: &'static str,
    ap_password: &'static str,
    automatic_registration: bool,
    user_network_priority: heapless::Vec<RadioAccessTechnology, 3>,
    current_network_priority: heapless::Vec<RadioAccessTechnology, 3>,
    auto_reg_timeout_ms: u64,
}

impl Modem {
    /// The APN set or learned from the network.
    pub closed spec fn spec_apn(&self) -> Option<heapless::String<63>> {
        self.apn
    }

    pub closed spec fn spec_username(&self) -> &'static str {
        self.ap_username
    }

    pub closed spec fn spec_password(&self) -> &'static str {
        self.ap_password
    }

    /// Whether registration goes through the priority list.
    pub closed spec fn automatic(&self) -> bool {
        self.automatic_registration
    }

    /// The order configured at initialisation.
    pub closed spec fn user_priority(&self) -> Seq<RadioAccessTechnology> {
        priority_items(self.user_network_priority)
    }

    /// The order the next registration tries.
    pub closed spec fn priority(&self) -> Seq<RadioAccessTechnology> {
        priority_items(self.current_network_priority)
    }

    /// How long each technology is given, in milliseconds.
    pub closed spec fn auto_reg_timeout(&self) -> u64 {
        self.auto_reg_timeout_ms
    }

    /// Both priority lists fit in their capacity of three.
    pub open spec fn wf(&self) -> bool {
        self.user_priority().len() <= 3 && self.priority().len() <= 3
    }

    /// A modem with no APN, empty credentials, manual registration, the
    /// default priority and two minutes per technology.
    pub fn new() -> (m: Modem)
        ensures
            m.wf(),
            m.spec_apn() is None,
            m.spec_username()@ == Seq::<char>::empty(),
            m.spec_password()@ == Seq::<char>::empty(),
            !m.automatic(),
            m.user_priority() == default_priority(),
            m.priority() == default_priority(),
            m.auto_reg_timeout() == AUTO_REGISTRATION_TIMEOUT_MS,
    {
        let empty = "";
        proof {
            reveal_strlit("");
        }
        Modem {
            apn: None,
            ap_username: empty,
            ap_password: empty,
            automatic_registration: false,
            user_network_priority: default_priority_list(),
            current_network_priority: default_priority_list(),
            auto_reg_timeout_ms: AUTO_REGISTRATION_TIMEOUT_MS,
        }
    }

    pub fn set_apn(&mut self, apn: heapless::String<63>)
        ensures
            final(self).spec_apn() == Some(apn),
            final(self).spec_username() == old(self).spec_username(),
            final(self).spec_password() == old(self).spec_password(),
            final(self).automatic() == old(self).automatic(),
            final(self).user_priority() == old(self).user_priority(),
            final(self).priority() == old(self).priority(),
            final(self).auto_reg_timeout() == old(self).auto_reg_timeout(),
    {
        self.apn = Some(apn);
    }

    pub fn set_ap_username(&mut self, ap_username: &'static str)
        ensures
            final(self).spec_username() == ap_username,
            final(self).spec_apn() == old(self).spec_apn(),
            final(self).spec_password() == old(self).spec_password(),
            final(self).automatic() == old(self).automatic(),
            final(self).user_priority() == old(self).user_priority(),
            final(self).priority() == old(self).priority(),
            final(self).auto_reg_timeout() == old(self).auto_reg_timeout(),
    {
        self.ap_username = ap_username;
    }

    pub fn set_ap_password(&mut self, ap_password: &'static str)
        ensures
            final(self).spec_password() == ap_password,
            final(self).spec_apn() == old(self).spec_apn(),
            final(self).spec_username() == old(self).spec_username(),
            final(self).automatic() == old(self).automatic(),
            final(self).user_priority() == old(self).user_priority(),
            final(self).priority() == old(self).priority(),
            final(self).auto_reg_timeout() == old(self).auto_reg_timeout(),
    {
        self.ap_password = ap_password;
    }

    /// Resets the network priority to the priority provided when
    /// initialising with [`NetworkModeConfig::Automatic`] (the default
    /// order where none was provided).
    pub fn reset_network_priority(&mut self)
        ensures
            final(self).priority() == old(self).user_priority(),
            final(self).user_priority() == old(self).user_priority(),
            final(self).spec_apn() == old(self).spec_apn(),
            final(self).spec_username() == old(self).spec_username(),
            final(self).spec_password() == old(self).spec_password(),
            final(self).automatic() == old(self).automatic(),
            final(self).auto_reg_timeout() == old(self).auto_reg_timeout(),
    {
        self.current_network_priority = priority_clone(&self.user_network_priority);
    }

    /// Whether registration goes through the priority list.
    pub fn automatic_registration(&self) -> (r: bool)
        ensures
            r == self.automatic(),
    {
        self.automatic_registration
    }

    /// How long each technology is given to register, in milliseconds.
    pub fn auto_reg_timeout_ms(&self) -> (r: u64)
        ensures
            r == self.auto_reg_timeout(),
    {
        self.auto_reg_timeout_ms
    }

    /// The technology tried after `tried` others failed to register;
    /// `None` once the list is exhausted.
    pub fn registration_candidate(&self, tried: usize) -> (r: Option<RadioAccessTechnology>)
        ensures
            tried < self.priority().len() ==> r == Some(self.priority()[tried as int]),
            tried >= self.priority().len() ==> r is None,
    {
        let items = priority_as_slice(&self.current_network_priority);
        if tried < items.len() {
            Some(items[tried])
        } else {
            None
        }
    }

    /// Registration with `active` succeeded: it is tried first next time,
    /// the others keep their order.
    pub fn promote(&mut self, active: RadioAccessTechnology)
        requires
            old(self).wf(),
        ensures
            final(self).wf(),
            final(self).priority() == promoted(old(self).priority(), active),
            final(self).user_priority() == old(self).user_priority(),
            final(self).spec_apn() == old(self).spec_apn(),
            final(self).spec_username() == old(self).spec_username(),
            final(self).spec_password() == old(self).spec_password(),
            final(self).automatic() == old(self).automatic(),
            final(self).auto_reg_timeout() == old(self).auto_reg_timeout(),
    {
        let ghost items = self.priority();
        let slice = priority_as_slice(&self.current_network_priority);
        let mut i: usize = 0;
        while i < slice.len()
            invariant
                i <= slice@.len(),
                slice@ == items,
                forall|j: int| 0 <= j < i ==> slice@[j] != active,
            ensures
                i <= slice@.len(),
                forall|j: int| 0 <= j < i ==> slice@[j] != active,
                i < slice@.len() ==> slice@[i as int] == active,
            decreases slice@.len() - i,
        {
            if slice[i] == active {
                break;
            }
            i = i + 1;
        }
        proof {
            items.index_of_first_ensures(active);
        }
        if i < slice.len() {
            proof {
                assert(items.contains(active));
                let k = items.index_of_first(active)->Some_0;
                assert(!(k < i as int));
                assert(!((i as int) < k));
            }
            let element = priority_remove(&mut self.current_network_priority, i);
            let r = priority_insert(&mut self.current_network_priority, 0, element);
            proof {
                assert(r is Ok);
                assert(self.priority() =~= seq![active] + items.remove(i as int));
            }
        } else {
            proof {
                if items.contains(active) {
                    let k = items.index_of_first(active)->Some_0;
                    assert(items[k] == active);
                }
            }
        }
    }

    /// Whether activation has to ask the network for an APN: none was set.
    pub fn network_apn_needed(&self) -> (r: bool)
        ensures
            r == (self.spec_apn() is None),
    {
        self.apn.is_none()
    }

    /// Takes the APN the network suggests; without one there is no APN to
    /// authenticate with.
    pub fn adopt_network_apn(&mut self, network_apn: Option<heapless::String<63>>) -> (r: Result<
        (),
        Error,
    >)
        ensures
            network_apn is None ==> r == Err::<(), Error>(Error::NoApn) && final(self).spec_apn()
                == old(self).spec_apn(),
            network_apn is Some ==> r is Ok && final(self).spec_apn() == network_apn,
            final(self).spec_username() == old(self).spec_username(),
            final(self).spec_password() == old(self).spec_password(),
            final(self).automatic() == old(self).automatic(),
            final(self).user_priority() == old(self).user_priority(),
            final(self).priority() == old(self).priority(),
            final(self).auto_reg_timeout() == old(self).auto_reg_timeout(),
    {
        match network_apn {
            Some(apn) => {
                self.apn = Some(apn);
                Ok(())
            },
            None => Err(Error::NoApn),
        }
    }
}

/// A step with the default timeout that must succeed.
pub open spec fn required(request: ModemRequest<'static>) -> Step<'static> {
    Step { request, timeout_ms: AT_DEFAULT_TIMEOUT_MS, policy: Policy::Required }
}

/// Hardware flow control in both directions.
pub open spec fn hardware_flow() -> FlowControl {
    FlowControl { te_flow: FlowControlMode::Hardware, ta_flow: FlowControlMode::Hardware }
}

/// The steps of initialisation, once the modem is powered on: flow control
/// and echo are tried up to five times each (the modem may still be waking
/// up), the settings that follow must succeed, the manual network choice
/// where there is one, then eDRX, tried up to six times and once more for good.
pub open spec fn init_steps(manual: Option<(PreferredConnectionMode, BandMode)>, edrx: EdrxParams) -> Seq<
    Step<'static>,
> {
    seq![
        Step {
            request: ModemRequest::SetFlowControl(hardware_flow()),
            timeout_ms: 2000,
            policy: Policy::BestEffort { attempts: 5, delay_ms: 0 },
        },
        Step {
            request: ModemRequest::SetEcho(true),
            timeout_ms: 1000,
            policy: Policy::BestEffort { attempts: 5, delay_ms: 0 },
        },
        required(ModemRequest::SetSlowClock(ClockMode::Enable)),
        required(ModemRequest::At),
        required(ModemRequest::SetBaudRate(115200)),
        required(ModemRequest::SetFlowControl(hardware_flow())),
        required(ModemRequest::ConfigureCmeErrors(ErrorReportMode::Enable)),
    ] + match manual {
        Some((network_mode, nb_mode)) => seq![
            required(ModemRequest::SetNetworkMode(network_mode)),
            required(ModemRequest::SetNbMode(nb_mode)),
        ],
        None => Seq::empty(),
    } + seq![
        required(ModemRequest::ConfigureRiPin(RiMode::All)),
        required(ModemRequest::EnableVBatCheck(true)),
        Step {
            request: ModemRequest::ConfigureEdrx(edrx),
            timeout_ms: AT_DEFAULT_TIMEOUT_MS,
            policy: Policy::BestEffort { attempts: 6, delay_ms: 200 },
        },
        required(ModemRequest::ConfigureEdrx(edrx)),
    ]
}

/// The steps of activation before registration: flow control (up to five
/// tries), echo off, numeric errors, then the three registration reports,
/// each tried up to six times a second apart.
pub open spec fn activation_steps_of() -> Seq<Step<'static>> {
    seq![
        Step {
            request: ModemRequest::SetFlowControl(hardware_flow()),
            timeout_ms: 2000,
            policy: Policy::BestEffort { attempts: 5, delay_ms: 0 },
        },
        required(ModemRequest::SetEcho(false)),
        required(ModemRequest::ConfigureCmeErrors(ErrorReportMode::Enable)),
        Step {
            request: ModemRequest::ConfigureRegistrationUrc(RegistrationUrc::CregWithLocation),
            timeout_ms: AT_DEFAULT_TIMEOUT_MS,
            policy: Policy::Retried { attempts: 6, delay_ms: 1000 },
        },
        Step {
            request: ModemRequest::ConfigureRegistrationUrc(RegistrationUrc::Cereg),
            timeout_ms: AT_DEFAULT_TIMEOUT_MS,
            policy: Policy::Retried { attempts: 6, delay_ms: 1000 },
        },
        Step {
            request: ModemRequest::ConfigureRegistrationUrc(RegistrationUrc::CgregWithLocation),
            timeout_ms: AT_DEFAULT_TIMEOUT_MS,
            policy: Policy::Retried { attempts: 6, delay_ms: 1000 },
        },
    ]
}

/// The steps right after registration: several connections at once, and
/// every earlier connection shut.
pub open spec fn post_registration_steps_of() -> Seq<Step<'static>> {
    seq![
        required(ModemRequest::EnableMultiIpConnection(true)),
        required(ModemRequest::ShutConnections),
    ]
}

/// The steps of activation before registration.
pub fn activation_steps() -> (r: Vec<Step<'static>>)
    ensures
        r@ == activation_steps_of(),
{
    let r = vec![
        Step {
            request: ModemRequest::SetFlowControl(
                FlowControl { te_flow: FlowControlMode::Hardware, ta_flow: FlowControlMode::Hardware },
            ),
            timeout_ms: 2000,
            policy: Policy::BestEffort { attempts: 5, delay_ms: 0 },
        },
        Step { request: ModemRequest::SetEcho(false), timeout_ms: AT_DEFAULT_TIMEOUT_MS, policy: Policy::Required },
        Step {
            request: ModemRequest::ConfigureCmeErrors(ErrorReportMode::Enable),
            timeout_ms: AT_DEFAULT_TIMEOUT_MS,
            policy: Policy::Required,
        },
        Step {
            request: ModemRequest::ConfigureRegistrationUrc(RegistrationUrc::CregWithLocation),
            timeout_ms: AT_DEFAULT_TIMEOUT_MS,
            policy: Policy::Retried { attempts: 6, delay_ms: 1000 },
        },
        Step {
            request: ModemRequest::ConfigureRegistrationUrc(RegistrationUrc::Cereg),
            timeout_ms: AT_DEFAULT_TIMEOUT_MS,
            policy: Policy::Retried { attempts: 6, delay_ms: 1000 },
        },
        Step {
            request: ModemRequest::ConfigureRegistrationUrc(RegistrationUrc::CgregWithLocation),
            timeout_ms: AT_DEFAULT_TIMEOUT_MS,
            policy: Policy::Retried { attempts: 6, delay_ms: 1000 },
        },
    ];
    assert(r@ =~= activation_steps_of());
    r
}

/// The steps right after registration.
pub fn post_registration_steps() -> (r: Vec<Step<'static>>)
    ensures
        r@ == post_registration_steps_of(),
{
    let r = vec![
        Step {
            request: ModemRequest::EnableMultiIpConnection(true),
            timeout_ms: AT_DEFAULT_TIMEOUT_MS,
            policy: Policy::Required,
        },
        Step { request: ModemRequest::ShutConnections, timeout_ms: AT_DEFAULT_TIMEOUT_MS, policy: Policy::Required },
    ];
    assert(r@ =~= post_registration_steps_of());
    r
}

/// How long `AT+CIICR` (bringing up the wireless connection) may take: the
/// datasheet gives 85 seconds.
pub const START_GPRS_TIMEOUT_MS: u32 = 86000;

/// `steps` authenticate with the modem's APN and credentials (`AT+CSTT`),
/// bring the wireless connection up (`AT+CIICR`, up to 86 seconds) and ask
/// for the local address, each of them required.
pub open spec fn is_connection_plan(steps: Seq<Step<'static>>, modem: Modem) -> bool {
    &&& modem.spec_apn() is Some
    &&& steps.len() == 3
    &&& steps[0].policy == Policy::Required
    &&& steps[0].timeout_ms == AT_DEFAULT_TIMEOUT_MS
    &&& steps[0].request matches ModemRequest::StartTask { apn, username, password }
        && apn_text(apn) == apn_text(modem.spec_apn()->Some_0) && username == modem.spec_username()
        && password == modem.spec_password()
    &&& steps[1] == (Step {
        request: ModemRequest::StartGprs,
        timeout_ms: START_GPRS_TIMEOUT_MS,
        policy: Policy::Required,
    })
    &&& steps[2] == required(ModemRequest::GetLocalIpExt)
}

/// The steps that select `rat`: its requests, each required.
pub open spec fn registration_steps_of(rat: RadioAccessTechnology) -> Seq<Step<'static>> {
    registration_requests_of(rat).map_values(|q: ModemRequest<'static>| required(q))
}

/// The steps that select `rat` before waiting for registration.
pub fn registration_steps(rat: RadioAccessTechnology) -> (r: Vec<Step<'static>>)
    ensures
        r@ == registration_steps_of(rat),
        r@.len() > 0,
{
    let r = match rat {
        RadioAccessTechnology::LteCatM1 => vec![
            Step {
                request: ModemRequest::SetNetworkMode(PreferredConnectionMode::Lte),
                timeout_ms: AT_DEFAULT_TIMEOUT_MS,
                policy: Policy::Required,
            },
            Step {
                request: ModemRequest::SetNbMode(BandMode::CatM),
                timeout_ms: AT_DEFAULT_TIMEOUT_MS,
                policy: Policy::Required,
            },
        ],
        RadioAccessTechnology::Gsm => vec![
            Step {
                request: ModemRequest::SetNetworkMode(PreferredConnectionMode::Gsm),
                timeout_ms: AT_DEFAULT_TIMEOUT_MS,
                policy: Policy::Required,
            },
        ],
        RadioAccessTechnology::LteNbIot => vec![
            Step {
                request: ModemRequest::SetNetworkMode(PreferredConnectionMode::Lte),
                timeout_ms: AT_DEFAULT_TIMEOUT_MS,
                policy: Policy::Required,
            },
            Step {
                request: ModemRequest::SetNbMode(BandMode::NbIot),
                timeout_ms: AT_DEFAULT_TIMEOUT_MS,
                policy: Policy::Required,
            },
        ],
    };
    assert(r@ =~= registration_steps_of(rat));
    r
}

/// What a registration search does next.
#[derive(Clone, Copy, Debug, PartialEq, Eq, Structural)]
pub enum SearchAction {
    /// Select this technology, then wait for registration.
    Try(RadioAccessTechnology),
    /// Registered with this technology.
    Registered(RadioAccessTechnology),
    /// The search failed.
    Failed(Error),
}

/// Goes through the modem's priority list, one technology at a time.
pub struct RegistrationSearch {
    tried: usize,
}

impl RegistrationSearch {
    /// How many technologies timed out so far.
    pub closed spec fn spec_tried(&self) -> nat {
        self.tried as nat
    }

    /// How many technologies timed out so far.
    pub fn tried(&self) -> (r: usize)
        ensures
            r == self.spec_tried(),
    {
        self.tried
    }

    /// The action after `tried` technologies timed out: the next one, or
    /// failure once none is left.
    pub open spec fn next_action(priority: Seq<RadioAccessTechnology>, tried: nat) -> SearchAction {
        if tried < priority.len() {
            SearchAction::Try(priority[tried as int])
        } else {
            SearchAction::Failed(Error::Timeout)
        }
    }

    /// A search that has tried nothing yet.
    pub fn new() -> (s: RegistrationSearch)
        ensures
            s.spec_tried() == 0,
    {
        RegistrationSearch { tried: 0 }
    }

    /// Starts with the first technology of the list.
    pub fn start(modem: &Modem) -> (r: (RegistrationSearch, SearchAction))
        ensures
            r.0.spec_tried() == 0,
            r.1 == Self::next_action(modem.priority(), 0),
    {
        let s = RegistrationSearch::new();
        let a = match modem.registration_candidate(0) {
            Some(rat) => SearchAction::Try(rat),
            None => SearchAction::Failed(Error::Timeout),
        };
        (s, a)
    }

    /// Takes how the last [`SearchAction::Try`] went: `Err` where selecting
    /// the technology failed, `Ok(true)` where the modem registered in time,
    /// `Ok(false)` where it did not (then the next technology is tried).
    pub fn on_result(&mut self, modem: &Modem, result: Result<bool, Error>) -> (r: SearchAction)
        requires
            modem.wf(),
            old(self).spec_tried() < modem.priority().len(),
        ensures
            result matches Err(e) ==> r == SearchAction::Failed(e)
                && final(self).spec_tried() == old(self).spec_tried(),
            result == Ok::<bool, Error>(true) ==> r == SearchAction::Registered(
                modem.priority()[old(self).spec_tried() as int],
            ) && final(self).spec_tried() == old(self).spec_tried(),
            result == Ok::<bool, Error>(false) ==> final(self).spec_tried() == old(self).spec_tried()
                + 1 && r == Self::next_action(modem.priority(), final(self).spec_tried()),
    {
        match result {
            Err(e) => SearchAction::Failed(e),
            Ok(true) => match modem.registration_candidate(self.tried) {
                Some(rat) => SearchAction::Registered(rat),
                None => vstd::pervasive::unreached(),
            },
            Ok(false) => {
                self.tried = self.tried + 1;
                match modem.registration_candidate(self.tried) {
                    Some(rat) => SearchAction::Try(rat),
                    None => SearchAction::Failed(Error::Timeout),
                }
            },
        }
    }
}

/// Promotion keeps the list's technologies, each as often as before, and
/// puts the registered one first.
pub proof fn lemma_promoted_is_permutation(items: Seq<RadioAccessTechnology>, active: RadioAccessTechnology)
    ensures
        promoted(items, active).to_multiset() == items.to_multiset(),
        promoted(items, active).len() == items.len(),
        items.contains(active) ==> promoted(items, active)[0] == active,
        !items.contains(active) ==> promoted(items, active) == items,
{
    broadcast use vstd::multiset::group_multiset_axioms;

    items.index_of_first_ensures(active);
    match items.index_of_first(active) {
        Some(k) => {
            let rest = items.remove(k);
            assert(seq![active] + rest =~= rest.insert(0, active));
            vstd::seq_lib::to_multiset_insert(rest, 0, active);
            vstd::seq_lib::to_multiset_remove(items, k);
            vstd::seq_lib::to_multiset_contains(items, active);
            assert(items.to_multiset().count(active) > 0);
            assert(items.to_multiset().remove(active).insert(active) =~= items.to_multiset());
        },
        None => {},
    }
}

impl Modem {
    /// Applies the network part of `config` (an automatic configuration
    /// takes over its priority list, or the default order LTE-M, GSM,
    /// NB-IoT where it names none; that list becomes the one a reset goes
    /// back to; and its timeout) and gives the steps of initialisation.
    pub fn init(&mut self, config: RegistrationConfig) -> (r: Vec<Step<'static>>)
        requires
            old(self).wf(),
        ensures
            final(self).wf(),
            final(self).spec_apn() == old(self).spec_apn(),
            final(self).spec_username() == old(self).spec_username(),
            final(self).spec_password() == old(self).spec_password(),
            match config.network_mode {
                NetworkModeConfig::Automatic { priority, timeout_ms } => {
                    &&& r@ == init_steps(None, edrx_params_of(config.edrx))
                    &&& final(self).automatic()
                    &&& final(self).auto_reg_timeout() == timeout_ms
                    &&& match priority {
                        Some(p) => final(self).priority() == priority_items(p)
                            && final(self).user_priority() == priority_items(p),
                        None => final(self).priority() == default_priority()
                            && final(self).user_priority() == default_priority(),
                    }
                },
                NetworkModeConfig::Manual { network_mode, nb_mode } => {
                    &&& r@ == init_steps(Some((network_mode, nb_mode)), edrx_params_of(config.edrx))
                    &&& final(self).automatic() == old(self).automatic()
                    &&& final(self).auto_reg_timeout() == old(self).auto_reg_timeout()
                    &&& final(self).priority() == old(self).priority()
                    &&& final(self).user_priority() == old(self).user_priority()
                },
            },
    {
        let edrx = config.edrx.to_params();
        let mut r: Vec<Step<'static>> = vec![
            Step {
                request: ModemRequest::SetFlowControl(
                    FlowControl { te_flow: FlowControlMode::Hardware, ta_flow: FlowControlMode::Hardware },
                ),
                timeout_ms: 2000,
                policy: Policy::BestEffort { attempts: 5, delay_ms: 0 },
            },
            Step {
                request: ModemRequest::SetEcho(true),
                timeout_ms: 1000,
                policy: Policy::BestEffort { attempts: 5, delay_ms: 0 },
            },
            Step {
                request: ModemRequest::SetSlowClock(ClockMode::Enable),
                timeout_ms: AT_DEFAULT_TIMEOUT_MS,
                policy: Policy::Required,
            },
            Step { request: ModemRequest::At, timeout_ms: AT_DEFAULT_TIMEOUT_MS, policy: Policy::Required },
            Step {
                request: ModemRequest::SetBaudRate(115200),
                timeout_ms: AT_DEFAULT_TIMEOUT_MS,
                policy: Policy::Required,
            },
            Step {
                request: ModemRequest::SetFlowControl(
                    FlowControl { te_flow: FlowControlMode::Hardware, ta_flow: FlowControlMode::Hardware },
                ),
                timeout_ms: AT_DEFAULT_TIMEOUT_MS,
                policy: Policy::Required,
            },
            Step {
                request: ModemRequest::ConfigureCmeErrors(ErrorReportMode::Enable),
                timeout_ms: AT_DEFAULT_TIMEOUT_MS,
                policy: Policy::Required,
            },
        ];
        let ghost head = r@;
        let ghost manual: Option<(PreferredConnectionMode, BandMode)>;
        match config.network_mode {
            NetworkModeConfig::Automatic { priority, timeout_ms } => {
                proof {
                    manual = None;
                }
                match priority {
                    Some(p) => {
                        let held = priority_as_slice(&p);
                        assert(priority_items(p).len() == held@.len());
                        self.user_network_priority = priority_clone(&p);
                        self.current_network_priority = p;
                    },
                    None => {
                        self.user_network_priority = default_priority_list();
                        self.current_network_priority = default_priority_list();
                    },
                }
                self.automatic_registration = true;
                self.auto_reg_timeout_ms = timeout_ms;
            },
            NetworkModeConfig::Manual { network_mode, nb_mode } => {
                proof {
                    manual = Some((network_mode, nb_mode));
                }
                r.push(
                    Step {
                        request: ModemRequest::SetNetworkMode(network_mode),
                        timeout_ms: AT_DEFAULT_TIMEOUT_MS,
                        policy: Policy::Required,
                    },
                );
                r.push(
                    Step {
                        request: ModemRequest::SetNbMode(nb_mode),
                        timeout_ms: AT_DEFAULT_TIMEOUT_MS,
                        policy: Policy::Required,
                    },
                );
            },
        }
        r.push(
            Step {
                request: ModemRequest::ConfigureRiPin(RiMode::All),
                timeout_ms: AT_DEFAULT_TIMEOUT_MS,
                policy: Policy::Required,
            },
        );
        r.push(
            Step {
                request: ModemRequest::EnableVBatCheck(true),
                timeout_ms: AT_DEFAULT_TIMEOUT_MS,
                policy: Policy::Required,
            },
        );
        r.push(
            Step {
                request: ModemRequest::ConfigureEdrx(edrx),
                timeout_ms: AT_DEFAULT_TIMEOUT_MS,
                policy: Policy::BestEffort { attempts: 6, delay_ms: 200 },
            },
        );
        r.push(
            Step {
                request: ModemRequest::ConfigureEdrx(edrx),
                timeout_ms: AT_DEFAULT_TIMEOUT_MS,
                policy: Policy::Required,
            },
        );
        assert(r@ =~= init_steps(manual, edrx));
        r
    }

    /// The steps that authenticate with the APN and bring the wireless
    /// connection up; without an APN there is nothing to authenticate with.
    pub fn connection_steps(&self) -> (r: Result<Vec<Step<'static>>, Error>)
        ensures
            self.spec_apn() is None ==> r == Err::<Vec<Step<'static>>, Error>(Error::NoApn),
            self.spec_apn() is Some ==> r is Ok && is_connection_plan(r->Ok_0@, *self),
    {
        match &self.apn {
            None => Err(Error::NoApn),
            Some(apn) => {
                let apn = apn_clone(apn);
                Ok(
                    vec![
                        Step {
                            request: ModemRequest::StartTask {
                                apn,
                                username: self.ap_username,
                                password: self.ap_password,
                            },
                            timeout_ms: AT_DEFAULT_TIMEOUT_MS,
                            policy: Policy::Required,
                        },
                        Step {
                            request: ModemRequest::StartGprs,
                            timeout_ms: START_GPRS_TIMEOUT_MS,
                            policy: Policy::Required,
                        },
                        Step {
                            request: ModemRequest::GetLocalIpExt,
                            timeout_ms: AT_DEFAULT_TIMEOUT_MS,
                            policy: Policy::Required,
                        },
                    ],
                )
            },
        }
    }

    /// The steps that synchronise the time with `ntp_server` over bearer
    /// profile 1 with the APN; without an APN, `Error::NoApn`.
    pub fn sync_ntp<'a>(&self, ntp_server: &'a str, timezone: u16) -> (r: Result<
        Vec<Step<'a>>,
        Error,
    >)
        ensures
            self.spec_apn() is None ==> r == Err::<Vec<Step<'a>>, Error>(Error::NoApn),
            self.spec_apn() is Some ==> r is Ok && r->Ok_0@.len() == 5 && (forall|i: int|
                0 <= i < 5 ==> (#[trigger] r->Ok_0@[i]).policy == Policy::Required
                    && r->Ok_0@[i].timeout_ms == AT_DEFAULT_TIMEOUT_MS) && (r->Ok_0@[0].request matches ModemRequest::SetBearerApn(a)
                && apn_text(a) == apn_text(self.spec_apn()->Some_0)) && (r->Ok_0@[1].request matches ModemRequest::OpenBearer(a)
                && apn_text(a) == apn_text(self.spec_apn()->Some_0)) && r->Ok_0@[2].request
                == ModemRequest::SetGprsBearerProfileId(1) && r->Ok_0@[3].request
                == (ModemRequest::SynchronizeNetworkTime { ntp_server, timezone, cid: 1 })
                && r->Ok_0@[4].request == ModemRequest::ExecuteNtp,
    {
        match &self.apn {
            None => Err(Error::NoApn),
            Some(apn) => {
                let a1 = apn_clone(apn);
                let a2 = apn_clone(apn);
                let r = vec![
                    Step {
                        request: ModemRequest::SetBearerApn(a1),
                        timeout_ms: AT_DEFAULT_TIMEOUT_MS,
                        policy: Policy::Required,
                    },
                    Step {
                        request: ModemRequest::OpenBearer(a2),
                        timeout_ms: AT_DEFAULT_TIMEOUT_MS,
                        policy: Policy::Required,
                    },
                    Step {
                        request: ModemRequest::SetGprsBearerProfileId(1),
                        timeout_ms: AT_DEFAULT_TIMEOUT_MS,
                        policy: Policy::Required,
                    },
                    Step {
                        request: ModemRequest::SynchronizeNetworkTime { ntp_server, timezone, cid: 1 },
                        timeout_ms: AT_DEFAULT_TIMEOUT_MS,
                        policy: Policy::Required,
                    },
                    Step {
                        request: ModemRequest::ExecuteNtp,
                        timeout_ms: AT_DEFAULT_TIMEOUT_MS,
                        policy: Policy::Required,
                    },
                ];
                Ok(r)
            },
        }
    }
}

/// How far the modem got in registering with a cell tower.
#[derive(Clone, Copy, Debug, PartialEq, Eq, Structural)]
pub enum RegistrationStatus {
    NotRegistered,
    RegisteredHome,
    RegisteredRoaming,
    Unknown,
}

/// Registered with a cell tower, at home or roaming.
pub open spec fn registered(status: RegistrationStatus) -> bool {
    status == RegistrationStatus::RegisteredHome || status == RegistrationStatus::RegisteredRoaming
}

/// The steps that start the GNSS engine: power, a report every 4 seconds,
/// and GLONASS, BeiDou and Galileo switched on.
pub open spec fn gnss_steps_of() -> Seq<Step<'static>> {
    seq![
        required(ModemRequest::SetGnssPower(true)),
        required(ModemRequest::ConfigureGnssUrc { period: 4 }),
        required(ModemRequest::SetGnssWorkMode { glonass: true, beidou: true, galilean: true }),
    ]
}

impl Modem {
    /// Whether the modem last reported that it is registered, at home or
    /// roaming: the condition a wait for registration waits for.
    pub fn registration_reached(signal: &StateSignal<RegistrationStatus>) -> (r: bool)
        ensures
            r == registered(signal.state()),
    {
        match signal.current() {
            RegistrationStatus::RegisteredHome => true,
            RegistrationStatus::RegisteredRoaming => true,
            _ => false,
        }
    }

    /// What powering the modem down does to the state it shares: it is no
    /// longer registered, and every open connection is told that it closed.
    pub fn deactivate(registration: &mut StateSignal<RegistrationStatus>, tcp: &mut TcpContext)
        requires
            old(tcp).wf(),
        ensures
            final(registration).state() == RegistrationStatus::NotRegistered,
            final(tcp).wf(),
            final(tcp).slots().len() == old(tcp).slots().len(),
            forall|j: int|
                0 <= j < old(tcp).slots().len() ==> {
                    let before = #[trigger] old(tcp).slots()[j];
                    let after = final(tcp).slots()[j];
                    &&& after.claimed() == before.claimed()
                    &&& before.claimed() ==> after.content().events.items() == crate::util::sent_items(
                        before.content().events.items(),
                        crate::tcp::ConnectionMessage::Closed,
                    )
                    &&& !before.claimed() ==> after == before
                },
    {
        registration.signal(RegistrationStatus::NotRegistered);
        tcp.disconnect_all();
    }

    /// The steps that download the GNSS assistance (XTRA) file from `url`:
    /// bring the application network up with the APN, then download the
    /// file to [`XTRA_FILE_PATH`], tried up to 5 times 200 ms apart since
    /// the first downloads often fail; without an APN, `Error::NoApn`.
    /// Whether a download succeeded is what the runner of the steps reports
    /// for it from the modem's answer.
    pub fn download_xtra<'a>(&self, url: &'a str) -> (r: Result<Vec<Step<'a>>, Error>)
        ensures
            self.spec_apn() is None <==> r == Err::<Vec<Step<'a>>, Error>(Error::NoApn),
            self.spec_apn() is Some ==> r is Ok && r->Ok_0@.len() == 2 && (r->Ok_0@[0].request
                matches ModemRequest::SetAppNetwork { mode, apn } && mode == AppNetworkMode::Enable
                && apn_text(apn) == apn_text(self.spec_apn()->Some_0)) && r->Ok_0@[0].policy
                == Policy::Required && r->Ok_0@[0].timeout_ms == AT_DEFAULT_TIMEOUT_MS
                && r->Ok_0@[1].request == (ModemRequest::DownloadToFileSystem {
                url,
                file_path: XTRA_FILE_PATH,
            }) && r->Ok_0@[1].policy == (Policy::Retried { attempts: 5, delay_ms: 200 })
                && r->Ok_0@[1].timeout_ms == AT_DEFAULT_TIMEOUT_MS,
    {
        match &self.apn {
            None => Err(Error::NoApn),
            Some(apn) => {
                let a = apn_clone(apn);
                Ok(
                    vec![
                        Step {
                            request: ModemRequest::SetAppNetwork { mode: AppNetworkMode::Enable, apn: a },
                            timeout_ms: AT_DEFAULT_TIMEOUT_MS,
                            policy: Policy::Required,
                        },
                        Step {
                            request: ModemRequest::DownloadToFileSystem { url, file_path: XTRA_FILE_PATH },
                            timeout_ms: AT_DEFAULT_TIMEOUT_MS,
                            policy: Policy::Retried { attempts: 5, delay_ms: 200 },
                        },
                    ],
                )
            },
        }
    }

    /// The steps of a cold start of the GNSS engine with the XTRA file,
    /// which must have been downloaded before ([`Modem::download_xtra`]):
    /// copy the file into place, switch its use on, then cold-start; each
    /// step is required.
    pub fn cold_start_with_xtra() -> (r: Vec<Step<'static>>)
        ensures
            r@ == seq![
                Step { request: ModemRequest::CopyXtraFile, timeout_ms: AT_DEFAULT_TIMEOUT_MS, policy: Policy::Required },
                Step { request: ModemRequest::SetGnssXtra(XtraMode::Enable), timeout_ms: AT_DEFAULT_TIMEOUT_MS, policy: Policy::Required },
                Step { request: ModemRequest::GnssColdStart, timeout_ms: AT_DEFAULT_TIMEOUT_MS, policy: Policy::Required },
            ],
    {
        vec![
            Step { request: ModemRequest::CopyXtraFile, timeout_ms: AT_DEFAULT_TIMEOUT_MS, policy: Policy::Required },
            Step { request: ModemRequest::SetGnssXtra(XtraMode::Enable), timeout_ms: AT_DEFAULT_TIMEOUT_MS, policy: Policy::Required },
            Step { request: ModemRequest::GnssColdStart, timeout_ms: AT_DEFAULT_TIMEOUT_MS, policy: Policy::Required },
        ]
    }

    /// Claims the GNSS reports for one user: `None` where someone holds them
    /// already, else the steps that start the GNSS engine.
    pub fn claim_gnss<T>(slot: &mut Slot<T>) -> (r: Option<Vec<Step<'static>>>)
        ensures
            final(slot).claimed(),
            final(slot).content() == old(slot).content(),
            old(slot).claimed() ==> r is None,
            !old(slot).claimed() ==> r is Some && r->Some_0@ == gnss_steps_of(),
    {
        if slot.claim().is_none() {
            return None;
        }
        let steps = vec![
            Step { request: ModemRequest::SetGnssPower(true), timeout_ms: AT_DEFAULT_TIMEOUT_MS, policy: Policy::Required },
            Step {
                request: ModemRequest::ConfigureGnssUrc { period: 4 },
                timeout_ms: AT_DEFAULT_TIMEOUT_MS,
                policy: Policy::Required,
            },
            Step {
                request: ModemRequest::SetGnssWorkMode { glonass: true, beidou: true, galilean: true },
                timeout_ms: AT_DEFAULT_TIMEOUT_MS,
                policy: Policy::Required,
            },
        ];
        assert(steps@ =~= gnss_steps_of());
        Some(steps)
    }
}


/// Where the XTRA file is stored on the modem.
pub const XTRA_FILE_PATH: &'static str = "/customer/xtra3grc.bin";

/// How long `AT+COPS?` may take: the modem answers within 120 seconds.
pub const OPERATOR_QUERY_TIMEOUT_MS: u32 = 121000;

impl Modem {
    /// The system information (`AT+CPSI?`), with the default timeout.
    pub fn query_system_info<B: SerialReadTimeout + SerialWrite>(serial: &mut B) -> (r: Result<
        SystemInfo,
        Error,
    >)
        ensures
            r is Ok ==> final(serial).sent() == old(serial).sent() + Cpsi::COMMAND.spec_bytes()
                + seq![63u8, 13u8],
            old(serial).events().is_prefix_of(final(serial).events()),
            crate::commands::exchanged::<SystemInfo>(
                crate::serial::new_events(old(serial).events(), final(serial).events()),
                crate::commands::read_prefix(Cpsi::COMMAND.spec_bytes()),
                AT_DEFAULT_TIMEOUT_MS,
                r,
            ),
    {
        let r = Cpsi.read(serial, AT_DEFAULT_TIMEOUT_MS);
        assert(crate::commands::read_prefix(Cpsi::COMMAND.spec_bytes()) + seq![13u8] =~= Cpsi::COMMAND.spec_bytes() + seq![63u8, 13u8]);
        r
    }

    /// The signal quality (`AT+CSQ`), with the default timeout.
    pub fn query_signal<B: SerialReadTimeout + SerialWrite>(serial: &mut B) -> (r: Result<
        SignalReading,
        Error,
    >)
        ensures
            r is Ok ==> final(serial).sent() == old(serial).sent() + Csq::COMMAND.spec_bytes()
                + seq![13u8],
            old(serial).events().is_prefix_of(final(serial).events()),
            crate::commands::exchanged::<SignalReading>(
                crate::serial::new_events(old(serial).events(), final(serial).events()),
                Csq::COMMAND.spec_bytes(),
                AT_DEFAULT_TIMEOUT_MS,
                r,
            ),
    {
        Csq.execute(serial, AT_DEFAULT_TIMEOUT_MS)
    }

    /// The current network operator (`AT+COPS?`); the modem may take up to
    /// 120 seconds to answer, so each read of the answer waits up to
    /// [`OPERATOR_QUERY_TIMEOUT_MS`].
    pub fn query_operator_info<B: SerialReadTimeout + SerialWrite>(serial: &mut B) -> (r: Result<
        OperatorInfo,
        Error,
    >)
        ensures
            r is Ok ==> final(serial).sent() == old(serial).sent() + Cops::COMMAND.spec_bytes()
                + seq![63u8, 13u8],
            old(serial).events().is_prefix_of(final(serial).events()),
            crate::commands::exchanged::<OperatorInfo>(
                crate::serial::new_events(old(serial).events(), final(serial).events()),
                crate::commands::read_prefix(Cops::COMMAND.spec_bytes()),
                OPERATOR_QUERY_TIMEOUT_MS,
                r,
            ),
    {
        let r = Cops.read(serial, OPERATOR_QUERY_TIMEOUT_MS);
        assert(crate::commands::read_prefix(Cops::COMMAND.spec_bytes()) + seq![13u8] =~= Cops::COMMAND.spec_bytes() + seq![63u8, 13u8]);
        r
    }

    /// The SIM card's ICCID (`AT+CCID`), with the default timeout.
    pub fn query_iccid<B: SerialReadTimeout + SerialWrite>(serial: &mut B) -> (r: Result<Iccid, Error>)
        ensures
            r is Ok ==> final(serial).sent() == old(serial).sent() + Ccid::COMMAND.spec_bytes()
                + seq![13u8],
            old(serial).events().is_prefix_of(final(serial).events()),
            crate::commands::exchanged::<Iccid>(
                crate::serial::new_events(old(serial).events(), final(serial).events()),
                Ccid::COMMAND.spec_bytes(),
                AT_DEFAULT_TIMEOUT_MS,
                r,
            ),
    {
        Ccid.execute(serial, AT_DEFAULT_TIMEOUT_MS)
    }
}

} // verus!
