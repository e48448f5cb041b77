use rathole::hardware::{figures_consistent, hardware_status};
use rathole::protocol::HardwareData;
use rathole::health::{HealthStatus, TunnelHealth, HYSTERESIS_NS};
use rathole::session::{
    direct_outcome, exchange_outcome, relay_outcome, session_step, DirectEvent, ExchangeEvent, HealthEffect,
    RelayEvent, SessionAction, SessionEvent, SessionPhase,
};
use rathole::error::AppError;

#[test]
fn registration_needs_a_valid_token() {
    assert_eq!(
        session_step(SessionPhase::AwaitingRegister, SessionEvent::Register(true)),
        (SessionPhase::Active, SessionAction::Activate)
    );
    assert_eq!(
        session_step(SessionPhase::AwaitingRegister, SessionEvent::Register(false)),
        (SessionPhase::Closed, SessionAction::Cleanup)
    );
    assert_eq!(
        session_step(SessionPhase::AwaitingRegister, SessionEvent::Unparsable),
        (SessionPhase::Closed, SessionAction::Abandon)
    );
    assert_eq!(
        session_step(SessionPhase::AwaitingRegister, SessionEvent::Response),
        (SessionPhase::Closed, SessionAction::Cleanup)
    );
}

#[test]
fn active_session_serves_and_ends() {
    let active = SessionPhase::Active;
    assert_eq!(
        session_step(active, SessionEvent::HealthReport(HealthStatus::Critical)),
        (active, SessionAction::UpdateHealth(HealthStatus::Critical))
    );
    assert_eq!(session_step(active, SessionEvent::Response), (active, SessionAction::DeliverResponse));
    assert_eq!(session_step(active, SessionEvent::Unparsable), (active, SessionAction::Ignore));
    assert_eq!(session_step(active, SessionEvent::NonTextFrame), (active, SessionAction::Ignore));
    assert_eq!(session_step(active, SessionEvent::TimedOut), (SessionPhase::Closed, SessionAction::Cleanup));
    assert_eq!(session_step(active, SessionEvent::SendFailed), (SessionPhase::Closed, SessionAction::Cleanup));
    assert_eq!(
        session_step(SessionPhase::Closed, SessionEvent::Register(true)),
        (SessionPhase::Closed, SessionAction::Ignore)
    );
}

#[test]
fn exchange_outcomes() {
    let sent_failed = exchange_outcome(ExchangeEvent::SendFailed);
    assert_eq!(sent_failed.health, HealthEffect::Failure);
    assert!(sent_failed.withdraw_pending);
    assert_eq!(sent_failed.error_status, Some(502));
    assert_eq!(exchange_outcome(ExchangeEvent::ReplyDropped).error_status, Some(502));
    assert_eq!(exchange_outcome(ExchangeEvent::TimedOut).error_status, Some(504));
    assert_eq!(exchange_outcome(ExchangeEvent::BodyUnreadable).error_status, Some(400));
    assert_eq!(exchange_outcome(ExchangeEvent::Replied).health, HealthEffect::Success);
    assert_eq!(direct_outcome(DirectEvent::NotRegistered), AppError::TunnelNotFound);
    assert_eq!(direct_outcome(DirectEvent::SendFailed), AppError::TunnelSendError);
    assert_eq!(direct_outcome(DirectEvent::ReplyDropped), AppError::TunnelResponseError);
    assert_eq!(relay_outcome(RelayEvent::SendFailed), (true, Some(500)));
    assert_eq!(relay_outcome(RelayEvent::FallbackAnswered), (false, None));
}

fn report(total_memory: u64, used_memory: u64, total_swap: u64, used_swap: u64) -> HardwareData<f32> {
    HardwareData {
        operating_system: "TestOS".to_string(),
        total_memory,
        used_memory,
        total_swap,
        used_swap,
        cpu_usage: 0.5,
        avg_temp: 40.0,
        max_temp: 50.0,
    }
}

#[test]
fn hardware_reports() {
    assert_eq!(hardware_status(&report(1024, 512, 2048, 1024), false), HealthStatus::Normal);
    assert_eq!(hardware_status(&report(1024, 512, 2048, 1024), true), HealthStatus::Critical);
    assert_eq!(hardware_status(&report(1024, 512, 2048, 2047), false), HealthStatus::Critical);
    assert_eq!(hardware_status(&report(1024, 1023, 2048, 10), false), HealthStatus::Critical);
    assert!(figures_consistent(&report(1024, 512, 2048, 1024), false));
    assert!(!figures_consistent(&report(1024, 512, 10, 20), false));
    assert!(figures_consistent(&report(1024, 2000, 10, 9), false));
    assert!(!figures_consistent(&report(1024, 2000, 10, 2), false));
}

#[test]
fn reports_and_failures_update_the_record() {
    let mut h = TunnelHealth::new(5);
    h.apply_report(HealthStatus::Critical, 7);
    assert_eq!(h.status, HealthStatus::Critical);
    assert_eq!(h.last_update, 7);
    assert_eq!(h.last_transition, None);

    // within the hysteresis period a failure does not change the status
    let mut g = TunnelHealth::new(0);
    g.mark_failure(HYSTERESIS_NS);
    assert_eq!(g.status, HealthStatus::Warning);
    assert_eq!(g.last_transition, Some(HYSTERESIS_NS));
    for _ in 0..4 {
        g.mark_failure(HYSTERESIS_NS + 1);
    }
    assert_eq!(g.consecutive_failures, 5);
    assert_eq!(g.status, HealthStatus::Warning);
    g.mark_failure(2 * HYSTERESIS_NS);
    assert_eq!(g.status, HealthStatus::Critical);
    assert_eq!(g.last_failure, Some(2 * HYSTERESIS_NS));
    g.mark_success(3 * HYSTERESIS_NS);
    assert_eq!(g.consecutive_successes, 0);
    assert_eq!(g.consecutive_failures, 0);
    assert_eq!(g.last_success, Some(3 * HYSTERESIS_NS));
}
