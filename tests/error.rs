use genesis_protocol::error::{
    DefaultErrorHandler, ErrorContext, ErrorHandler, ErrorMetrics, ErrorRecovery, GenesisError,
    NetworkError, SynapseError, TRONError,
};
use genesis_protocol::evolution::EvolutionError;
use genesis_protocol::fixed::UNIT;
use genesis_protocol::dna::DNAError;

fn count(entries: &[(String, u64)], key: &str) -> Option<u64> {
    entries.iter().find(|(k, _)| k == key).map(|(_, c)| *c)
}

#[test]
fn test_genesis_error_conversion() {
    let dna_error = DNAError::InvalidSecretKey;
    let genesis_error: GenesisError = dna_error.into();

    match genesis_error {
        GenesisError::DNA(DNAError::InvalidSecretKey) => {}
        _ => panic!("Error conversion failed"),
    }
}

#[test]
fn test_error_context() {
    let context = ErrorContext::new("test_operation")
        .with_organism("tron_123")
        .with_recovery(ErrorRecovery::Retry)
        .with_metadata("key", "value");

    assert_eq!(context.operation, "test_operation");
    assert_eq!(context.organism_id, Some("tron_123".to_string()));
    assert!(matches!(context.recovery_strategy, ErrorRecovery::Retry));
    assert_eq!(context.metadata_value("key"), Some(&"value".to_string()));
}

#[test]
fn test_error_metrics() {
    let mut metrics = ErrorMetrics::new();

    let error = GenesisError::DNA(DNAError::InvalidSecretKey);
    metrics.record_error(&error, Some("tron_123"));

    assert_eq!(metrics.total_errors, 1);
    assert_eq!(count(&metrics.errors_by_type, "DNA"), Some(1));
    assert_eq!(count(&metrics.errors_by_organism, "tron_123"), Some(1));

    metrics.record_recovery_attempt(true);
    assert_eq!(metrics.recovery_attempts, 1);
    assert_eq!(metrics.successful_recoveries, 1);
    assert_eq!(metrics.get_recovery_rate(), UNIT);
}

#[test]
fn test_default_error_handler() {
    let handler = DefaultErrorHandler::new();

    let neural_error = GenesisError::Neural(SynapseError::ConnectionRefused);
    let context = ErrorContext::new("test");

    assert!(matches!(handler.handle_error(&neural_error, &context), ErrorRecovery::Retry));
    assert!(handler.should_retry(&neural_error, 1));
    assert!(!handler.should_retry(&neural_error, 5));

    let delay = handler.get_retry_delay(&neural_error, 1);
    assert_eq!(delay, std::time::Duration::from_millis(200));
}

#[test]
fn metadata_overwrites_existing_key() {
    let context = ErrorContext::new("op")
        .with_metadata("a", "1")
        .with_metadata("b", "2")
        .with_metadata("a", "3");
    assert_eq!(context.metadata.len(), 2);
    assert_eq!(context.metadata_value("a"), Some(&"3".to_string()));
    assert_eq!(context.metadata_value("b"), Some(&"2".to_string()));
    assert_eq!(context.metadata_value("c"), None);
    assert!(context.organism_id.is_none());
    assert!(matches!(context.recovery_strategy, ErrorRecovery::Fail));
}

#[test]
fn metrics_count_per_kind_and_organism() {
    let mut metrics = ErrorMetrics::new();
    metrics.record_error(&GenesisError::Internal("x".to_string()), None);
    metrics.record_error(&GenesisError::Internal("y".to_string()), Some("t1"));
    metrics.record_error(&GenesisError::OrganismNotFound("t2".to_string()), Some("t1"));
    assert_eq!(metrics.total_errors, 3);
    assert_eq!(count(&metrics.errors_by_type, "Internal"), Some(2));
    assert_eq!(count(&metrics.errors_by_type, "OrganismNotFound"), Some(1));
    assert_eq!(count(&metrics.errors_by_organism, "t1"), Some(2));
    assert_eq!(metrics.get_recovery_rate(), 0);
    metrics.record_recovery_attempt(false);
    metrics.record_recovery_attempt(true);
    metrics.record_recovery_attempt(true);
    assert_eq!(metrics.get_recovery_rate(), 666_666_666);
}

#[test]
fn handler_policy_and_backoff() {
    let handler = DefaultErrorHandler::new().with_max_retries(2).with_base_delay(50);
    let timeout = GenesisError::OperationTimeout { operation: "op".to_string(), timeout_ms: 5 };
    let context = ErrorContext::new("op");
    assert_eq!(handler.handle_error(&timeout, &context), ErrorRecovery::Retry);
    assert_eq!(
        handler.handle_error(&GenesisError::InsufficientResources { resource: "cpu".to_string() }, &context),
        ErrorRecovery::Degrade
    );
    assert_eq!(
        handler.handle_error(&GenesisError::DNA(DNAError::SequenceTooShort), &context),
        ErrorRecovery::Fail
    );
    assert!(handler.should_retry(&timeout, 1));
    assert!(!handler.should_retry(&timeout, 2));
    assert!(!handler.should_retry(&GenesisError::Internal("x".to_string()), 0));
    assert_eq!(handler.retry_delay_ms(3), 400);
    assert_eq!(handler.get_retry_delay(&timeout, 0), std::time::Duration::from_millis(50));
    let big = DefaultErrorHandler::new().with_base_delay(u64::MAX / 2);
    assert_eq!(big.retry_delay_ms(2), u64::MAX);
}

#[test]
fn component_errors_convert_into_genesis_error() {


    let e: GenesisError = EvolutionError::PopulationExtinct.into();
    assert!(matches!(e, GenesisError::Evolution(EvolutionError::PopulationExtinct)));
    let e: GenesisError = NetworkError::NetworkTimeout.into();
    assert!(matches!(e, GenesisError::Network(NetworkError::NetworkTimeout)));
    let e: GenesisError = TRONError::TooManySynapses.into();
    assert!(matches!(e, GenesisError::TRON(TRONError::TooManySynapses)));
    let e: EvolutionError = DNAError::SequenceTooShort.into();
    assert!(matches!(e, EvolutionError::DNA(DNAError::SequenceTooShort)));
}

#[test]
fn recovery_attempts_leave_error_counts_alone() {
    let mut metrics = ErrorMetrics::new();
    metrics.record_error(&GenesisError::Internal("x".to_string()), Some("t9"));
    let stamp = metrics.last_error_time;
    metrics.record_recovery_attempt(false);
    assert_eq!(metrics.recovery_attempts, 1);
    assert_eq!(metrics.successful_recoveries, 0);
    assert_eq!(metrics.total_errors, 1);
    assert_eq!(count(&metrics.errors_by_type, "Internal"), Some(1));
    assert_eq!(count(&metrics.errors_by_organism, "t9"), Some(1));
    assert_eq!(metrics.last_error_time, stamp);
    assert_eq!(metrics.get_recovery_rate(), 0);
    metrics.successful_recoveries = 3;
    assert_eq!(metrics.get_recovery_rate(), 3 * UNIT);
}
