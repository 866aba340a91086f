use stellar_k8s::chaos::{
    count_passed, failure_reasons, judge_recovery, pod_ready, recommendations, recovery_step, ChaosExperimentConfig,
    ChaosExperimentType, ExperimentOutcome, ExperimentSeverity, RecoveryStep,
};

fn config(t: ChaosExperimentType) -> ChaosExperimentConfig {
    ChaosExperimentConfig {
        experiment_type: t,
        namespace: "stellar-system".to_string(),
        target_label_selector: "app=stellar-operator".to_string(),
        duration_secs: 30,
        severity: ExperimentSeverity::Critical,
        slo_recovery_secs: 180,
        delay_ms: None,
        jitter_ms: None,
        io_workers: None,
        cpu_workers: None,
        memory_mb: None,
        disk_fill_bytes: None,
    }
}

#[test]
fn test_chaos_experiment_type_display() {
    assert_eq!(ChaosExperimentType::PodKill.name(), "PodKill");
    assert_eq!(ChaosExperimentType::NetworkDelay.name(), "NetworkDelay");
    assert_eq!(ChaosExperimentType::NetworkPartition.name(), "NetworkPartition");
    assert_eq!(ChaosExperimentType::IoStress.name(), "IoStress");
    assert_eq!(ChaosExperimentType::CpuStress.name(), "CpuStress");
    assert_eq!(ChaosExperimentType::MemoryPressure.name(), "MemoryPressure");
    assert_eq!(ChaosExperimentType::DiskFill.name(), "DiskFill");
    assert_eq!(ChaosExperimentType::ValidatorPodKill.name(), "ValidatorPodKill");
    assert_eq!(ChaosExperimentType::CascadingFailure.name(), "CascadingFailure");
}

#[test]
fn test_default_slo_secs() {
    assert_eq!(ChaosExperimentConfig::default_slo_secs(ChaosExperimentType::PodKill), 180);
    assert_eq!(ChaosExperimentConfig::default_slo_secs(ChaosExperimentType::CascadingFailure), 600);
    assert_eq!(ChaosExperimentConfig::default_slo_secs(ChaosExperimentType::DiskFill), 120);
}

#[test]
fn network_delay_annotation_uses_defaults() {
    let c = config(ChaosExperimentType::NetworkDelay);
    assert_eq!(
        c.chaos_annotation(),
        Some(("chaos.mesh/network-delay".to_string(), "delay=100ms,jitter=10ms".to_string()))
    );
    let mut c2 = config(ChaosExperimentType::NetworkDelay);
    c2.delay_ms = Some(250);
    assert_eq!(c2.chaos_annotation().unwrap().1, "delay=250ms,jitter=10ms");
}

#[test]
fn stress_annotations() {
    assert_eq!(config(ChaosExperimentType::IoStress).chaos_annotation().unwrap().1, "workers=4");
    assert_eq!(config(ChaosExperimentType::CpuStress).chaos_annotation().unwrap().1, "workers=2");
    assert_eq!(config(ChaosExperimentType::MemoryPressure).chaos_annotation().unwrap().1, "memory=512mb");
    assert_eq!(config(ChaosExperimentType::DiskFill).chaos_annotation().unwrap().1, "bytes=104857600");
    assert_eq!(
        config(ChaosExperimentType::NetworkPartition).chaos_annotation(),
        Some(("chaos.mesh/network-partition".to_string(), "direction=both".to_string()))
    );
    assert_eq!(config(ChaosExperimentType::PodKill).chaos_annotation(), None);
}

#[test]
fn outcomes_and_reasons() {
    let ok = judge_recovery(ChaosExperimentType::PodKill, Some(60), 180);
    assert!(ok.system_recovered && ok.slo_met);
    assert!(failure_reasons(ok, Some(60), 180).is_empty());
    let slow = judge_recovery(ChaosExperimentType::PodKill, Some(360), 180);
    assert!(slow.system_recovered && !slow.slo_met);
    assert_eq!(failure_reasons(slow, Some(360), 180), vec!["Recovery time 360s exceeded SLO of 180s".to_string()]);
    let lost = judge_recovery(ChaosExperimentType::CascadingFailure, None, 600);
    assert!(!lost.system_recovered && !lost.slo_met);
    assert_eq!(failure_reasons(lost, None, 600), vec!["System did not recover within 600s".to_string()]);
    let boundary = judge_recovery(ChaosExperimentType::PodKill, Some(180), 180);
    assert!(boundary.slo_met);
}

#[test]
fn report_recommendations() {
    let pass = ExperimentOutcome { experiment_type: ChaosExperimentType::PodKill, system_recovered: true, slo_met: true };
    let lost = ExperimentOutcome {
        experiment_type: ChaosExperimentType::CascadingFailure,
        system_recovered: false,
        slo_met: false,
    };
    let slow = ExperimentOutcome { experiment_type: ChaosExperimentType::DiskFill, system_recovered: true, slo_met: false };
    let all = recommendations(&[pass, pass]);
    assert_eq!(all, vec!["All experiments passed. Continue running chaos tests regularly.".to_string()]);
    let mixed = recommendations(&[pass, lost, slow]);
    assert_eq!(mixed.len(), 2);
    assert_eq!(mixed[0], "CascadingFailure: System did not recover — add circuit breakers and retry logic");
    assert_eq!(mixed[1], "DiskFill: Recovery exceeded SLO — optimise reconciliation loop performance");
    assert_eq!(count_passed(&[pass, lost, slow, pass]), 2);
}

#[test]
fn recovery_monitor_steps() {
    assert_eq!(recovery_step(true, 42), RecoveryStep::Recovered(42));
    assert_eq!(recovery_step(false, 600), RecoveryStep::Wait);
    assert_eq!(recovery_step(false, 601), RecoveryStep::GaveUp);
    assert!(pod_ready(&[("PodScheduled".to_string(), "True".to_string()), ("Ready".to_string(), "True".to_string())]));
    assert!(!pod_ready(&[("Ready".to_string(), "False".to_string())]));
    assert!(!pod_ready(&[]));
}
