use sim7000::commands::{
    AppNetworkMode, XtraMode, BandMode, ClockMode, EdrxBandMode, EdrxInterval, EdrxMode, ErrorReportMode, FlowControlMode,
    PreferredConnectionMode, RiMode,
};
use sim7000::error::Error;
use sim7000::modem::{
    activation_steps, chunks_of, post_registration_steps, registration_requests, EDRXConfig,
    Modem, ModemRequest, NetworkModeConfig, Policy, Procedure, ProcedureAction,
    RadioAccessTechnology, RawAtCommand, RegistrationConfig, RegistrationSearch, RegistrationUrc,
    SearchAction, Step, TcpContext, TcpSlot, AT_DEFAULT_TIMEOUT_MS,
};
use sim7000::modem::{Activation, ActivationAction, ActivationEvent, ActivationPhase, RegistrationStatus, RxPipe};
use sim7000::tcp::ConnectError;
use sim7000::util::StateSignal;
use sim7000::slot::Slot;
use sim7000::tcp::ConnectionMessage;
use sim7000::util::Lagged;

use RadioAccessTechnology::{Gsm, LteCatM1, LteNbIot};

fn priority(items: &[RadioAccessTechnology]) -> heapless::Vec<RadioAccessTechnology, 3> {
    heapless::Vec::from_slice(items).unwrap()
}

fn current_priority(modem: &Modem) -> Vec<RadioAccessTechnology> {
    let mut out = Vec::new();
    let mut i = 0;
    while let Some(rat) = modem.registration_candidate(i) {
        out.push(rat);
        i += 1;
    }
    out
}

#[test]
fn new_modem_has_default_priority() {
    let modem = Modem::new();
    assert_eq!(current_priority(&modem), vec![LteCatM1, Gsm, LteNbIot]);
    assert!(!modem.automatic_registration());
    assert_eq!(modem.auto_reg_timeout_ms(), 120_000);
    assert!(modem.network_apn_needed());
}

#[test]
fn promotion_moves_registered_technology_first() {
    let mut modem = Modem::new();
    modem.promote(Gsm);
    assert_eq!(current_priority(&modem), vec![Gsm, LteCatM1, LteNbIot]);
    modem.promote(LteNbIot);
    assert_eq!(current_priority(&modem), vec![LteNbIot, Gsm, LteCatM1]);
    modem.promote(LteNbIot);
    assert_eq!(current_priority(&modem), vec![LteNbIot, Gsm, LteCatM1]);
}

#[test]
fn promotion_of_missing_technology_changes_nothing() {
    let mut modem = Modem::new();
    let config = RegistrationConfig {
        network_mode: NetworkModeConfig::Automatic {
            priority: Some(priority(&[Gsm, LteCatM1])),
            timeout_ms: 1000,
        },
        edrx: EDRXConfig::Disabled,
    };
    let _ = modem.init(config);
    modem.promote(LteNbIot);
    assert_eq!(current_priority(&modem), vec![Gsm, LteCatM1]);
}

#[test]
fn reset_goes_back_to_configured_priority() {
    let mut modem = Modem::new();
    let config = RegistrationConfig {
        network_mode: NetworkModeConfig::Automatic {
            priority: Some(priority(&[LteNbIot, Gsm, LteCatM1])),
            timeout_ms: 30_000,
        },
        edrx: EDRXConfig::Disabled,
    };
    let _ = modem.init(config);
    assert!(modem.automatic_registration());
    assert_eq!(modem.auto_reg_timeout_ms(), 30_000);
    modem.promote(LteCatM1);
    assert_eq!(current_priority(&modem), vec![LteCatM1, LteNbIot, Gsm]);
    modem.reset_network_priority();
    assert_eq!(current_priority(&modem), vec![LteNbIot, Gsm, LteCatM1]);
}

#[test]
fn reset_without_configuration_gives_default() {
    let mut modem = Modem::new();
    modem.promote(LteNbIot);
    modem.reset_network_priority();
    assert_eq!(current_priority(&modem), vec![LteCatM1, Gsm, LteNbIot]);
}

#[test]
fn automatic_init_without_priority_restores_default_order() {
    let mut modem = Modem::new();
    modem.promote(LteNbIot);
    assert_eq!(current_priority(&modem), vec![LteNbIot, LteCatM1, Gsm]);
    let config = RegistrationConfig {
        network_mode: NetworkModeConfig::Automatic { priority: None, timeout_ms: 5000 },
        edrx: EDRXConfig::Disabled,
    };
    let _ = modem.init(config);
    assert_eq!(current_priority(&modem), vec![LteCatM1, Gsm, LteNbIot]);
    modem.promote(Gsm);
    modem.reset_network_priority();
    assert_eq!(current_priority(&modem), vec![LteCatM1, Gsm, LteNbIot]);
    assert_eq!(modem.auto_reg_timeout_ms(), 5000);
}

#[test]
fn automatic_init_plan() {
    let mut modem = Modem::new();
    let steps = modem.init(RegistrationConfig::default());
    assert!(modem.automatic_registration());
    assert_eq!(modem.auto_reg_timeout_ms(), 120_000);
    assert_eq!(steps.len(), 11);
    assert!(matches!(
        steps[0],
        Step {
            request: ModemRequest::SetFlowControl(f),
            timeout_ms: 2000,
            policy: Policy::BestEffort { attempts: 5, delay_ms: 0 },
        } if f.te_flow == FlowControlMode::Hardware && f.ta_flow == FlowControlMode::Hardware
    ));
    assert!(matches!(
        steps[1],
        Step { request: ModemRequest::SetEcho(true), timeout_ms: 1000, policy: Policy::BestEffort { attempts: 5, .. } }
    ));
    assert!(matches!(steps[2].request, ModemRequest::SetSlowClock(ClockMode::Enable)));
    assert!(matches!(steps[3].request, ModemRequest::At));
    assert!(matches!(steps[4].request, ModemRequest::SetBaudRate(115200)));
    assert!(matches!(steps[6].request, ModemRequest::ConfigureCmeErrors(ErrorReportMode::Enable)));
    assert!(matches!(steps[7].request, ModemRequest::ConfigureRiPin(RiMode::All)));
    assert!(matches!(steps[8].request, ModemRequest::EnableVBatCheck(true)));
    match &steps[9] {
        Step { request: ModemRequest::ConfigureEdrx(p), policy, .. } => {
            assert_eq!(p.mode, EdrxMode::Disable);
            assert_eq!(*policy, Policy::BestEffort { attempts: 6, delay_ms: 200 });
        }
        other => panic!("unexpected step {:?}", other),
    }
    assert_eq!(steps[10].policy, Policy::Required);
    for step in &steps[2..] {
        if !matches!(step.request, ModemRequest::ConfigureEdrx(_)) {
            assert_eq!(step.policy, Policy::Required);
            assert_eq!(step.timeout_ms, AT_DEFAULT_TIMEOUT_MS);
        }
    }
}

#[test]
fn manual_init_plan_selects_network() {
    let mut modem = Modem::new();
    let config = RegistrationConfig {
        network_mode: NetworkModeConfig::Manual {
            network_mode: PreferredConnectionMode::Lte,
            nb_mode: BandMode::NbIot,
        },
        edrx: EDRXConfig::Enabled {
            auto_report: true,
            act_type: EdrxBandMode::NbIot,
            cycle_length: EdrxInterval::S81_92,
        },
    };
    let steps = modem.init(config);
    assert!(!modem.automatic_registration());
    assert_eq!(steps.len(), 13);
    assert!(matches!(steps[7].request, ModemRequest::SetNetworkMode(PreferredConnectionMode::Lte)));
    assert!(matches!(steps[8].request, ModemRequest::SetNbMode(BandMode::NbIot)));
    match steps[12].request {
        ModemRequest::ConfigureEdrx(p) => {
            assert_eq!(p.mode, EdrxMode::AutoReport);
            assert_eq!(p.band, EdrxBandMode::NbIot);
            assert_eq!(p.interval, EdrxInterval::S81_92);
        }
        _ => panic!("expected eDRX configuration"),
    }
}

#[test]
fn edrx_config_to_params() {
    let p = EDRXConfig::Enabled { auto_report: false, act_type: EdrxBandMode::CatM, cycle_length: EdrxInterval::S20_48 }
        .to_params();
    assert_eq!(p.mode, EdrxMode::Enable);
    assert_eq!(p.band, EdrxBandMode::CatM);
    assert_eq!(p.interval, EdrxInterval::S20_48);
    let d = EDRXConfig::Disabled.to_params();
    assert_eq!(d.mode, EdrxMode::Disable);
    assert_eq!(d.interval, EdrxInterval::S5_12);
}

#[test]
fn registration_requests_per_technology() {
    let catm = registration_requests(LteCatM1);
    assert_eq!(catm.len(), 2);
    assert!(matches!(catm[0], ModemRequest::SetNetworkMode(PreferredConnectionMode::Lte)));
    assert!(matches!(catm[1], ModemRequest::SetNbMode(BandMode::CatM)));
    let gsm = registration_requests(Gsm);
    assert_eq!(gsm.len(), 1);
    assert!(matches!(gsm[0], ModemRequest::SetNetworkMode(PreferredConnectionMode::Gsm)));
    let nb = registration_requests(LteNbIot);
    assert!(matches!(nb[1], ModemRequest::SetNbMode(BandMode::NbIot)));
}

#[test]
fn registration_search_goes_through_priority() {
    let modem = Modem::new();
    let (mut search, first) = RegistrationSearch::start(&modem);
    assert_eq!(first, SearchAction::Try(LteCatM1));
    assert_eq!(search.on_result(&modem, Ok(false)), SearchAction::Try(Gsm));
    assert_eq!(search.on_result(&modem, Ok(true)), SearchAction::Registered(Gsm));
}

#[test]
fn registration_search_times_out_after_all() {
    let modem = Modem::new();
    let (mut search, _) = RegistrationSearch::start(&modem);
    assert_eq!(search.on_result(&modem, Ok(false)), SearchAction::Try(Gsm));
    assert_eq!(search.on_result(&modem, Ok(false)), SearchAction::Try(LteNbIot));
    assert_eq!(search.on_result(&modem, Ok(false)), SearchAction::Failed(Error::Timeout));
}

#[test]
fn registration_search_stops_on_command_error() {
    let modem = Modem::new();
    let (mut search, _) = RegistrationSearch::start(&modem);
    assert_eq!(search.on_result(&modem, Err(Error::Serial)), SearchAction::Failed(Error::Serial));
}

#[test]
fn activation_steps_order() {
    let steps = activation_steps();
    assert_eq!(steps.len(), 6);
    assert!(matches!(steps[1].request, ModemRequest::SetEcho(false)));
    assert!(matches!(
        steps[3],
        Step {
            request: ModemRequest::ConfigureRegistrationUrc(RegistrationUrc::CregWithLocation),
            policy: Policy::Retried { attempts: 6, delay_ms: 1000 },
            ..
        }
    ));
    assert!(matches!(steps[4].request, ModemRequest::ConfigureRegistrationUrc(RegistrationUrc::Cereg)));
    assert!(matches!(steps[5].request, ModemRequest::ConfigureRegistrationUrc(RegistrationUrc::CgregWithLocation)));
    let post = post_registration_steps();
    assert!(matches!(post[0].request, ModemRequest::EnableMultiIpConnection(true)));
    assert!(matches!(post[1].request, ModemRequest::ShutConnections));
}

#[test]
fn connection_needs_apn() {
    let mut modem = Modem::new();
    assert_eq!(modem.connection_steps().err(), Some(Error::NoApn));
    assert_eq!(modem.adopt_network_apn(None), Err(Error::NoApn));
    assert!(modem.sync_ntp("pool.ntp.org", 0).is_err());
    modem.set_ap_username("user");
    modem.set_ap_password("secret");
    assert_eq!(modem.adopt_network_apn(Some(heapless::String::try_from("internet").unwrap())), Ok(()));
    assert!(!modem.network_apn_needed());
    let steps = modem.connection_steps().unwrap();
    assert_eq!(steps.len(), 3);
    match &steps[0].request {
        ModemRequest::StartTask { apn, username, password } => {
            assert_eq!(apn.as_str(), "internet");
            assert_eq!(*username, "user");
            assert_eq!(*password, "secret");
        }
        other => panic!("unexpected request {:?}", other),
    }
    assert!(matches!(steps[1], Step { request: ModemRequest::StartGprs, timeout_ms: 86000, .. }));
    assert!(matches!(steps[2].request, ModemRequest::GetLocalIpExt));
}

#[test]
fn set_apn_is_used_for_ntp() {
    let mut modem = Modem::new();
    modem.set_apn(heapless::String::try_from("iot.example").unwrap());
    let steps = modem.sync_ntp("pool.ntp.org", 4).unwrap();
    assert_eq!(steps.len(), 5);
    match &steps[0].request {
        ModemRequest::SetBearerApn(apn) => assert_eq!(apn.as_str(), "iot.example"),
        other => panic!("unexpected request {:?}", other),
    }
    match &steps[3].request {
        ModemRequest::SynchronizeNetworkTime { ntp_server, timezone, cid } => {
            assert_eq!(*ntp_server, "pool.ntp.org");
            assert_eq!(*timezone, 4);
            assert_eq!(*cid, 1);
        }
        other => panic!("unexpected request {:?}", other),
    }
    assert!(matches!(steps[4].request, ModemRequest::ExecuteNtp));
}

fn step(request: ModemRequest<'static>, policy: Policy) -> Step<'static> {
    Step { request, timeout_ms: 1000, policy }
}

#[test]
fn procedure_runs_steps_in_order() {
    let (mut p, first) = Procedure::new(vec![
        step(ModemRequest::At, Policy::Required),
        step(ModemRequest::ShutConnections, Policy::Required),
    ]);
    assert_eq!(first, ProcedureAction::Run(0));
    assert_eq!(p.on_result(Ok(())), ProcedureAction::Run(1));
    assert!(matches!(p.step(1).request, ModemRequest::ShutConnections));
    assert_eq!(p.on_result(Ok(())), ProcedureAction::Finished(Ok(())));
}

#[test]
fn empty_procedure_finishes_at_once() {
    let (_, first) = Procedure::new(Vec::new());
    assert_eq!(first, ProcedureAction::Finished(Ok(())));
}

#[test]
fn required_step_failure_aborts() {
    let (mut p, _) = Procedure::new(vec![
        step(ModemRequest::At, Policy::Required),
        step(ModemRequest::StartGprs, Policy::Required),
    ]);
    assert_eq!(p.on_result(Err(Error::Timeout)), ProcedureAction::Finished(Err(Error::Timeout)));
}

#[test]
fn best_effort_step_gives_up_and_goes_on() {
    let (mut p, _) = Procedure::new(vec![
        step(ModemRequest::SetEcho(true), Policy::BestEffort { attempts: 3, delay_ms: 7 }),
        step(ModemRequest::At, Policy::Required),
    ]);
    assert_eq!(p.on_result(Err(Error::Timeout)), ProcedureAction::RunAfter { delay_ms: 7, step: 0 });
    assert_eq!(p.on_result(Err(Error::Timeout)), ProcedureAction::RunAfter { delay_ms: 7, step: 0 });
    assert_eq!(p.on_result(Err(Error::Timeout)), ProcedureAction::Run(1));
    assert_eq!(p.on_result(Ok(())), ProcedureAction::Finished(Ok(())));
}

#[test]
fn retried_step_fails_with_last_error() {
    let (mut p, _) = Procedure::new(vec![step(
        ModemRequest::ConfigureRegistrationUrc(RegistrationUrc::Cereg),
        Policy::Retried { attempts: 2, delay_ms: 1000 },
    )]);
    assert_eq!(p.on_result(Err(Error::Timeout)), ProcedureAction::RunAfter { delay_ms: 1000, step: 0 });
    assert_eq!(p.on_result(Err(Error::Serial)), ProcedureAction::Finished(Err(Error::Serial)));
}

#[test]
fn retried_step_success_after_failure() {
    let (mut p, _) = Procedure::new(vec![step(ModemRequest::At, Policy::Retried { attempts: 6, delay_ms: 200 })]);
    assert_eq!(p.on_result(Err(Error::Timeout)), ProcedureAction::RunAfter { delay_ms: 200, step: 0 });
    assert_eq!(p.on_result(Ok(())), ProcedureAction::Finished(Ok(())));
}

#[test]
fn chunks_cover_bytes() {
    assert!(chunks_of(&[]).is_empty());
    let data: Vec<u8> = (0..600u32).map(|i| (i % 251) as u8).collect();
    let chunks = chunks_of(&data);
    assert_eq!(chunks.len(), 3);
    assert_eq!(chunks[0].as_bytes().len(), 256);
    assert_eq!(chunks[1].as_bytes().len(), 256);
    assert_eq!(chunks[2].as_bytes().len(), 88);
    let joined: Vec<u8> = chunks.iter().flat_map(|c| c.as_bytes().to_vec()).collect();
    assert_eq!(joined, data);
    assert!(chunks.iter().all(|c| matches!(c, RawAtCommand::Binary(_))));
    let exact = chunks_of(&[1u8; 256]);
    assert_eq!(exact.len(), 1);
}

#[test]
fn raw_text_command() {
    let cmd = RawAtCommand::from_str("AT+CSQ\r");
    assert_eq!(cmd.as_bytes(), b"AT+CSQ\r");
    assert!(matches!(cmd, RawAtCommand::Text(_)));
}

fn context(n: usize) -> TcpContext {
    let mut slots = Vec::new();
    for _ in 0..n {
        slots.push(Slot::new(TcpSlot::new()));
    }
    TcpContext::new(slots)
}

#[test]
fn tcp_context_claims_first_free_slot() {
    let mut ctx = context(3);
    let a = ctx.claim().unwrap();
    let b = ctx.claim().unwrap();
    assert_eq!(a.ordinal(), 0);
    assert_eq!(b.ordinal(), 1);
    ctx.release(a);
    let c = ctx.claim().unwrap();
    assert_eq!(c.ordinal(), 0);
    let d = ctx.claim().unwrap();
    assert_eq!(d.ordinal(), 2);
    assert!(ctx.claim().is_none());
}

#[test]
fn disconnect_all_closes_claimed_connections() {
    let mut ctx = context(2);
    let a = ctx.claim().unwrap();
    ctx.disconnect_all();
    assert_eq!(a.next_message(&mut ctx), Some(Ok(ConnectionMessage::Closed)));
    assert_eq!(a.next_message(&mut ctx), None);
    let b = ctx.claim().unwrap();
    assert_eq!(b.ordinal(), 1);
    assert_eq!(b.next_message(&mut ctx), None);
}

#[test]
fn disconnect_all_overflow_reports_lag() {
    let mut ctx = context(1);
    let a = ctx.claim().unwrap();
    for _ in 0..9 {
        ctx.disconnect_all();
    }
    assert_eq!(a.next_message(&mut ctx), Some(Err(Lagged)));
    for _ in 0..8 {
        assert_eq!(a.next_message(&mut ctx), Some(Ok(ConnectionMessage::Closed)));
    }
    assert_eq!(a.next_message(&mut ctx), None);
}

#[test]
fn registration_reached_home_or_roaming() {
    let mut signal = StateSignal::new(RegistrationStatus::Unknown);
    assert!(!Modem::registration_reached(&signal));
    signal.signal(RegistrationStatus::RegisteredRoaming);
    assert!(Modem::registration_reached(&signal));
    signal.signal(RegistrationStatus::RegisteredHome);
    assert!(Modem::registration_reached(&signal));
    signal.signal(RegistrationStatus::NotRegistered);
    assert!(!Modem::registration_reached(&signal));
}

#[test]
fn deactivation_resets_shared_state() {
    let mut signal = StateSignal::new(RegistrationStatus::RegisteredHome);
    let mut ctx = context(2);
    let a = ctx.claim().unwrap();
    Modem::deactivate(&mut signal, &mut ctx);
    assert_eq!(signal.current(), RegistrationStatus::NotRegistered);
    assert_eq!(a.next_message(&mut ctx), Some(Ok(ConnectionMessage::Closed)));
}

#[test]
fn gnss_claimed_once() {
    let mut slot = Slot::new(());
    let steps = Modem::claim_gnss(&mut slot).unwrap();
    assert_eq!(steps.len(), 3);
    assert!(matches!(steps[0].request, ModemRequest::SetGnssPower(true)));
    assert!(matches!(steps[1].request, ModemRequest::ConfigureGnssUrc { period: 4 }));
    assert!(matches!(
        steps[2].request,
        ModemRequest::SetGnssWorkMode { glonass: true, beidou: true, galilean: true }
    ));
    assert!(Modem::claim_gnss(&mut slot).is_none());
}

#[test]
fn connection_claim_without_free_slot() {
    let mut ctx = context(1);
    assert_eq!(ctx.claim_connection().map(|t| t.ordinal()), Ok(0));
    assert!(matches!(ctx.claim_connection(), Err(ConnectError::NoFreeSlots)));
}

#[test]
fn rx_pipe_is_fifo_and_bounded() {
    let mut pipe = RxPipe::new();
    assert_eq!(pipe.try_write(b"hello "), 6);
    assert_eq!(pipe.try_write(b"world"), 5);
    let mut buf = [0u8; 4];
    assert_eq!(pipe.try_read(&mut buf), 4);
    assert_eq!(&buf, b"hell");
    let mut rest = [0u8; 16];
    assert_eq!(pipe.try_read(&mut rest), 7);
    assert_eq!(&rest[..7], b"o world");
    assert_eq!(rest[7], 0);
    assert_eq!(pipe.len(), 0);
    let big = vec![7u8; 4000];
    assert_eq!(pipe.try_write(&big), 3072);
    assert_eq!(pipe.try_write(b"x"), 0);
    pipe.clear();
    assert_eq!(pipe.len(), 0);
}

#[test]
fn delivered_bytes_reach_the_token() {
    let mut ctx = context(2);
    let a = ctx.claim().unwrap();
    let b = ctx.claim().unwrap();
    assert_eq!(ctx.deliver(1, b"for b"), 5);
    let mut buf = [0u8; 8];
    assert_eq!(a.read(&mut ctx, &mut buf), 0);
    assert_eq!(b.read(&mut ctx, &mut buf), 5);
    assert_eq!(&buf[..5], b"for b");
    assert_eq!(ctx.deliver(0, b"left over"), 9);
    ctx.release(a);
    let c = ctx.claim().unwrap();
    assert_eq!(c.ordinal(), 0);
    assert_eq!(c.read(&mut ctx, &mut buf), 0);
}

fn steps_of(action: &ActivationAction) -> usize {
    match action {
        ActivationAction::RunSteps(steps) => steps.len(),
        other => panic!("expected steps, got {:?}", other),
    }
}

#[test]
fn manual_activation_phases() {
    let mut modem = Modem::new();
    modem.set_apn(heapless::String::try_from("internet").unwrap());
    let (mut act, first) = Activation::start();
    assert_eq!(steps_of(&first), 6);
    let a = act.on_event(&mut modem, ActivationEvent::StepsDone(Ok(())));
    assert!(matches!(a, ActivationAction::AwaitRegistration { timeout_ms: 600_000 }));
    assert_eq!(act.current_phase(), ActivationPhase::AwaitRegistration(None));
    let a = act.on_event(&mut modem, ActivationEvent::Registration(true));
    assert_eq!(steps_of(&a), 2);
    let a = act.on_event(&mut modem, ActivationEvent::StepsDone(Ok(())));
    assert_eq!(steps_of(&a), 3);
    assert_eq!(act.current_phase(), ActivationPhase::Connect);
    let a = act.on_event(&mut modem, ActivationEvent::StepsDone(Ok(())));
    assert!(matches!(a, ActivationAction::Finished(Ok(()))));
}

#[test]
fn manual_activation_registration_timeout() {
    let mut modem = Modem::new();
    let (mut act, _) = Activation::start();
    act.on_event(&mut modem, ActivationEvent::StepsDone(Ok(())));
    let a = act.on_event(&mut modem, ActivationEvent::Registration(false));
    assert!(matches!(a, ActivationAction::Finished(Err(Error::Timeout))));
    assert_eq!(act.current_phase(), ActivationPhase::Done);
}

#[test]
fn automatic_activation_tries_and_promotes() {
    let mut modem = Modem::new();
    let _ = modem.init(RegistrationConfig::default());
    let (mut act, _) = Activation::start();
    let a = act.on_event(&mut modem, ActivationEvent::StepsDone(Ok(())));
    assert_eq!(steps_of(&a), 2);
    assert_eq!(act.current_phase(), ActivationPhase::Select(LteCatM1));
    let a = act.on_event(&mut modem, ActivationEvent::StepsDone(Ok(())));
    assert!(matches!(a, ActivationAction::AwaitRegistration { timeout_ms: 120_000 }));
    let a = act.on_event(&mut modem, ActivationEvent::Registration(false));
    assert_eq!(steps_of(&a), 1);
    assert_eq!(act.current_phase(), ActivationPhase::Select(Gsm));
    act.on_event(&mut modem, ActivationEvent::StepsDone(Ok(())));
    let a = act.on_event(&mut modem, ActivationEvent::Registration(true));
    assert_eq!(steps_of(&a), 2);
    assert_eq!(current_priority(&modem), vec![Gsm, LteCatM1, LteNbIot]);
    let a = act.on_event(&mut modem, ActivationEvent::StepsDone(Ok(())));
    assert!(matches!(a, ActivationAction::QueryNetworkApn));
    let a = act.on_event(&mut modem, ActivationEvent::NetworkApn(Ok(None)));
    assert!(matches!(a, ActivationAction::Finished(Err(Error::NoApn))));
}

#[test]
fn automatic_activation_gives_up_after_all() {
    let mut modem = Modem::new();
    let _ = modem.init(RegistrationConfig::default());
    let (mut act, _) = Activation::start();
    act.on_event(&mut modem, ActivationEvent::StepsDone(Ok(())));
    for _ in 0..2 {
        act.on_event(&mut modem, ActivationEvent::StepsDone(Ok(())));
        let a = act.on_event(&mut modem, ActivationEvent::Registration(false));
        assert!(matches!(a, ActivationAction::RunSteps(_)));
    }
    act.on_event(&mut modem, ActivationEvent::StepsDone(Ok(())));
    let a = act.on_event(&mut modem, ActivationEvent::Registration(false));
    assert!(matches!(a, ActivationAction::Finished(Err(Error::Timeout))));
}

#[test]
fn activation_uses_network_apn() {
    let mut modem = Modem::new();
    let (mut act, _) = Activation::start();
    act.on_event(&mut modem, ActivationEvent::StepsDone(Ok(())));
    act.on_event(&mut modem, ActivationEvent::Registration(true));
    act.on_event(&mut modem, ActivationEvent::StepsDone(Ok(())));
    let a = act.on_event(
        &mut modem,
        ActivationEvent::NetworkApn(Ok(Some(heapless::String::try_from("net.apn").unwrap()))),
    );
    match a {
        ActivationAction::RunSteps(steps) => match &steps[0].request {
            ModemRequest::StartTask { apn, .. } => assert_eq!(apn.as_str(), "net.apn"),
            other => panic!("unexpected request {:?}", other),
        },
        other => panic!("unexpected action {:?}", other),
    }
    assert!(!modem.network_apn_needed());
}

#[test]
fn activation_stops_on_failed_phase() {
    let mut modem = Modem::new();
    let (mut act, _) = Activation::start();
    let a = act.on_event(&mut modem, ActivationEvent::StepsDone(Err(Error::Serial)));
    assert!(matches!(a, ActivationAction::Finished(Err(Error::Serial))));
}

#[test]
fn modem_queries() {
    let mut mock = sim7000::framed::FramedPort::new(sim7000::mock::MockSerial::build()
        .expect_write(b"AT+COPS?\r")
        .expect_read(b"\r\n+COPS: 0,0,\"Telia\"\r\n\r\nOK\r\n")
        .expect_write(b"AT+CPSI?\r")
        .expect_read(b"\r\n+CPSI: LTE NB-IOT,Online,240-01\r\n\r\nOK\r\n")
        .expect_write(b"AT+CCID\r")
        .expect_read(b"\r\n89460850071805040418\r\n\r\nOK\r\n")
        .finalize());
    let info = Modem::query_operator_info(&mut mock).unwrap();
    assert_eq!(info.operator_name, b"Telia");
    let system = Modem::query_system_info(&mut mock).unwrap();
    assert_eq!(system.operation_mode, sim7000::commands::OperationMode::Online);
    let iccid = Modem::query_iccid(&mut mock).unwrap();
    assert_eq!(iccid.account, 5007180504041);
    assert!(Modem::query_signal(&mut mock).is_err());
}

#[test]
fn download_xtra_needs_apn() {
    let modem = Modem::new();
    assert!(matches!(modem.download_xtra("http://xtra.example/xtra3grc.bin"), Err(Error::NoApn)));
}

#[test]
fn download_xtra_plan() {
    let mut modem = Modem::new();
    modem.set_apn(heapless::String::try_from("iot.example").unwrap());
    let steps = modem.download_xtra("http://xtra.example/xtra3grc.bin").unwrap();
    assert_eq!(steps.len(), 2);
    match &steps[0].request {
        ModemRequest::SetAppNetwork { mode, apn } => {
            assert_eq!(*mode, AppNetworkMode::Enable);
            assert_eq!(apn.as_str(), "iot.example");
        }
        other => panic!("unexpected request {:?}", other),
    }
    assert!(matches!(steps[0].policy, Policy::Required));
    match &steps[1].request {
        ModemRequest::DownloadToFileSystem { url, file_path } => {
            assert_eq!(*url, "http://xtra.example/xtra3grc.bin");
            assert_eq!(*file_path, "/customer/xtra3grc.bin");
        }
        other => panic!("unexpected request {:?}", other),
    }
    assert!(matches!(steps[1].policy, Policy::Retried { attempts: 5, delay_ms: 200 }));
}

#[test]
fn cold_start_with_xtra_plan() {
    let steps = Modem::cold_start_with_xtra();
    assert_eq!(steps.len(), 3);
    assert!(matches!(steps[0].request, ModemRequest::CopyXtraFile));
    assert!(matches!(steps[1].request, ModemRequest::SetGnssXtra(XtraMode::Enable)));
    assert!(matches!(steps[2].request, ModemRequest::GnssColdStart));
    assert!(steps.iter().all(|s| matches!(s.policy, Policy::Required)));
}
