use synesthesia::event::Quantity;
use synesthesia::flight::recorder::TriggerInfo;
use synesthesia::flight::FlightSource;
use synesthesia::trigger::{
    check_threshold, counts_toward, read_rule, reset_trigger, threshold_not_a_number, validate_for, Debounce,
    FireOnce, RuleText, TriggerError, TriggerKind,
};

fn kind_of(text: &str) -> Result<TriggerKind, TriggerError> {
    match read_rule(text)? {
        RuleText::Plain(kind) => Ok(kind),
        RuleText::Rate(kind, prefix, threshold) => {
            let parsed = threshold.parse::<f64>().map_err(|_| threshold_not_a_number(prefix))?;
            check_threshold(Quantity::Double { bits: parsed.to_bits() })?;
            Ok(kind)
        }
    }
}

#[test]
fn typed_trigger_parser_refuses_generic_or_cross_source_rules() {
    assert!(matches!(kind_of("anything=1"), Err(TriggerError::Invalid(_))));
    assert!(matches!(kind_of("tcp-retransmit-rate=0"), Err(TriggerError::Invalid(_))));
    let rule = kind_of("tcp-reset").unwrap();
    assert!(matches!(
        validate_for(rule, "tcp-reset".to_owned(), FlightSource::Scheduler),
        Err(TriggerError::WrongSource { .. })
    ));
    assert!(validate_for(rule, "tcp-reset".to_owned(), FlightSource::Tcp).is_ok());
    assert_eq!(kind_of("scheduler-event-rate=15000").unwrap(), TriggerKind::SchedulerEventRate);
}

#[test]
fn rule_texts_and_errors_are_exact() {
    assert!(matches!(read_rule("manual"), Ok(RuleText::Plain(TriggerKind::Manual))));
    assert!(matches!(read_rule("auto"), Ok(RuleText::Plain(TriggerKind::Auto))));
    match read_rule("scheduler-migration-rate=2.5") {
        Ok(RuleText::Rate(TriggerKind::SchedulerMigrationRate, prefix, threshold)) => {
            assert_eq!(prefix, "scheduler-migration-rate=");
            assert_eq!(threshold, "2.5");
        }
        _ => panic!("expected a migration rate rule"),
    }
    match read_rule("loud") {
        Err(error) => assert_eq!(
            error.message(),
            "invalid flight trigger: unknown trigger loud; expected manual, auto, tcp-reset, or a typed rate threshold"
        ),
        Ok(_) => panic!("expected a refusal"),
    }
    assert_eq!(threshold_not_a_number("tcp-retransmit-rate=").message(), "invalid flight trigger: tcp-retransmit-rate= requires a number");
    let wrong = validate_for(TriggerKind::SchedulerEventRate, "scheduler-event-rate=15000".to_owned(), FlightSource::Tcp);
    assert_eq!(
        wrong.unwrap_err().message(),
        "trigger scheduler-event-rate=15000 is incompatible with Tcp source"
    );
    for bad in [0.0f64, -0.0, -3.0, f64::INFINITY, f64::NAN] {
        assert!(check_threshold(Quantity::Double { bits: bad.to_bits() }).is_err());
    }
    assert!(check_threshold(Quantity::Double { bits: 0.001f64.to_bits() }).is_ok());
}

#[test]
fn rate_triggers_fire_on_two_of_three_completed_windows() {
    let mut debounce = Debounce::new();
    assert!(!debounce.close_window(true));
    assert!(!debounce.close_window(true));
    assert!(debounce.close_window(false));

    let mut debounce = Debounce::new();
    let outcomes: Vec<bool> = [true, false, false, true, true, false]
        .iter()
        .map(|exceeded| debounce.close_window(*exceeded))
        .collect();
    assert_eq!(outcomes, [false, false, false, false, true, true]);
}

#[test]
fn resets_fire_the_reset_rule_and_rates_count_their_categories() {
    let sent = reset_trigger("tcp.reset.send").unwrap();
    assert_eq!(sent.kind, "tcp-reset");
    assert_eq!(sent.reason, "observed semantic tcp.reset.send");
    assert!(sent.threshold.is_none());
    assert_eq!(reset_trigger("tcp.reset.receive").unwrap().reason, "observed semantic tcp.reset.receive");
    assert!(reset_trigger("tcp.retransmit").is_none());

    assert!(counts_toward(TriggerKind::TcpRetransmitRate, "tcp.retransmit"));
    assert!(!counts_toward(TriggerKind::TcpRetransmitRate, "tcp.reset.send"));
    assert!(counts_toward(TriggerKind::SchedulerEventRate, "sched.switch"));
    assert!(counts_toward(TriggerKind::SchedulerEventRate, "sched.migrate"));
    assert!(!counts_toward(TriggerKind::SchedulerEventRate, "proc.cpu"));
    assert!(counts_toward(TriggerKind::SchedulerMigrationRate, "sched.migrate"));
    assert!(!counts_toward(TriggerKind::SchedulerMigrationRate, "sched.wakeup"));
    assert!(!counts_toward(TriggerKind::TcpReset, "tcp.reset.send"));
}

#[test]
fn a_session_latch_lets_only_the_first_trigger_fire() {
    let mut latch = FireOnce::new();
    assert!(!latch.fired());
    assert!(latch.pass(None).is_none());
    assert!(!latch.fired());
    let first = latch.pass(Some(TriggerInfo::manual())).unwrap();
    assert_eq!(first.kind, TriggerInfo::manual().kind);
    assert!(latch.fired());
    assert!(latch.pass(Some(TriggerInfo::manual())).is_none());
    assert!(latch.pass(reset_trigger("tcp.reset.send")).is_none());
}
