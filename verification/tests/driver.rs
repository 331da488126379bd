use azure_core_diag::driver::duration::Duration;
use azure_core_diag::driver::gate::{
    should_build, DiagnosticsPolicy, DiagnosticsThresholds, Mode, OperationKind,
};
use azure_core_diag::driver::options::{
    AccountReference, ContentResponseOnWrite, DriverOptions, DriverOptionsBuilder, RuntimeOptions,
};
use azure_core_diag::scenarios::Outcome;

#[test]
fn off_never_builds() {
    let p = DiagnosticsPolicy::default();
    assert_eq!(p.mode, Mode::Off);
    assert!(!should_build(Outcome::Error, u64::MAX, &p));
    assert!(!should_build(Outcome::Success, 0, &p));
}

#[test]
fn always_always_builds() {
    let p = DiagnosticsPolicy::always();
    assert!(should_build(Outcome::Success, 0, &p));
    assert!(should_build(Outcome::Error, 0, &p));
}

#[test]
fn threshold_builds_on_slow_or_error() {
    let p = DiagnosticsPolicy::threshold(Duration::from_millis(5));
    // fast success -> drop
    assert!(!should_build(Outcome::Success, 1_000_000, &p));
    // slow success -> build
    assert!(should_build(Outcome::Success, 6_000_000, &p));
    // fast error -> build (capture_on_error)
    assert!(should_build(Outcome::Error, 1_000_000, &p));
}

#[test]
fn threshold_without_error_capture_only_gates_on_latency() {
    let p = DiagnosticsPolicy {
        capture_on_error: false,
        ..DiagnosticsPolicy::threshold(Duration::from_millis(5))
    };
    assert!(!should_build(Outcome::Error, 1_000_000, &p));
    assert!(should_build(Outcome::Error, 6_000_000, &p));
}

#[test]
fn from_thresholds_picks_point_vs_non_point() {
    let thresholds = DiagnosticsThresholds::new()
        .with_point_operation_latency_threshold(Duration::from_millis(1))
        .with_non_point_operation_latency_threshold(Duration::from_millis(100));
    let point = DiagnosticsPolicy::from_thresholds(&thresholds, OperationKind::Point);
    let non_point = DiagnosticsPolicy::from_thresholds(&thresholds, OperationKind::NonPoint);
    assert_eq!(point.latency_threshold, Some(Duration::from_millis(1)));
    assert_eq!(
        non_point.latency_threshold,
        Some(Duration::from_millis(100))
    );
}

#[test]
fn the_threshold_itself_is_not_slow() {
    let p = DiagnosticsPolicy::threshold(Duration::from_millis(5));
    assert!(!should_build(Outcome::Success, 5_000_000, &p));
    assert!(should_build(Outcome::Success, 5_000_001, &p));
}

#[test]
fn no_thresholds_leave_only_errors() {
    let thresholds = DiagnosticsThresholds::new();
    let p = DiagnosticsPolicy::from_thresholds(&thresholds, OperationKind::Point);
    assert_eq!(p.mode, Mode::Threshold);
    assert_eq!(p.latency_threshold, None);
    assert!(!should_build(Outcome::Success, u64::MAX, &p));
    assert!(should_build(Outcome::Error, 0, &p));
}

#[test]
fn a_threshold_past_every_time_is_never_exceeded() {
    let p = DiagnosticsPolicy::threshold(Duration::from_millis(u64::MAX));
    assert_eq!(
        Duration::from_millis(u64::MAX).as_nanos(),
        18_446_744_073_709_551_615_000_000
    );
    assert!(!should_build(Outcome::Success, u64::MAX, &p));
    assert_eq!(Duration::from_nanos(7).as_nanos(), 7);
}

fn test_account() -> AccountReference {
    AccountReference::with_master_key("https://test.documents.azure.com:443/", "test-key")
}

#[test]
fn builder_creates_options_with_account() {
    let account = test_account();
    let options = DriverOptionsBuilder::new(account.clone()).build();

    assert!(options.account() == &account);
    assert_eq!(
        options.account().endpoint(),
        "https://test.documents.azure.com:443/"
    );
    assert!(options
        .runtime_options()
        .snapshot()
        .content_response_on_write
        .is_none());
}

#[test]
fn builder_sets_runtime_options() {
    let runtime = RuntimeOptions::builder()
        .with_content_response_on_write(ContentResponseOnWrite::Disabled)
        .build();

    let options = DriverOptionsBuilder::new(test_account())
        .with_runtime_options(runtime)
        .build();

    let snapshot = options.runtime_options().snapshot();
    assert_eq!(
        snapshot.content_response_on_write,
        Some(ContentResponseOnWrite::Disabled)
    );
}

#[test]
fn diagnostics_policy_defaults_off_and_is_configurable() {
    let default_options = DriverOptionsBuilder::new(test_account()).build();
    assert_eq!(default_options.diagnostics_policy().mode, Mode::Off);

    let configured = DriverOptionsBuilder::new(test_account())
        .with_diagnostics_policy(DiagnosticsPolicy::threshold(Duration::from_millis(5)))
        .build();
    assert_eq!(configured.diagnostics_policy().mode, Mode::Threshold);
    assert_eq!(
        configured.diagnostics_policy().latency_threshold,
        Some(Duration::from_millis(5))
    );
}

#[test]
fn options_start_a_builder() {
    let options = DriverOptions::builder(test_account())
        .with_diagnostics_policy(DiagnosticsPolicy::always())
        .build();
    assert_eq!(options.diagnostics_policy().mode, Mode::Always);
    assert_eq!(options.runtime_options().snapshot(), RuntimeOptions::default());
}

#[test]
fn a_slower_operation_is_not_dropped() {
    let p = DiagnosticsPolicy::threshold(Duration::from_millis(5));
    let mut built = false;
    for total_ns in [0, 4_999_999, 5_000_000, 5_000_001, 6_000_000, u64::MAX] {
        let builds = should_build(Outcome::Success, total_ns, &p);
        assert!(builds || !built);
        built = builds;
    }
    assert!(built);
}

#[test]
fn runtime_options_change_after_the_build() {
    let account = AccountReference::with_master_key("https://test", "test-key");
    let runtime = RuntimeOptions::builder()
        .with_content_response_on_write(ContentResponseOnWrite::Disabled)
        .build();
    let mut options = DriverOptionsBuilder::new(account.clone())
        .with_runtime_options(runtime)
        .with_diagnostics_policy(DiagnosticsPolicy::always())
        .build();
    options
        .runtime_options_mut()
        .set_content_response_on_write(Some(ContentResponseOnWrite::Enabled));
    assert_eq!(
        options.runtime_options().snapshot().content_response_on_write,
        Some(ContentResponseOnWrite::Enabled)
    );
    assert!(options.account() == &account);
    assert_eq!(options.diagnostics_policy().mode, Mode::Always);
    options
        .runtime_options_mut()
        .set_content_response_on_write(None);
    assert_eq!(
        options.runtime_options().snapshot().content_response_on_write,
        None
    );
}
