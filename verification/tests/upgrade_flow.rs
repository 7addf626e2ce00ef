use client_core::upgrade::{
    progress_step, ActionOutcome, UpgradeAction, UpgradeFlow, UpgradeOptions, UpgradeStage,
    UpgradeStep,
};

fn run_stage(a: &UpgradeAction) -> Option<UpgradeStage> {
    match a {
        UpgradeAction::Run(s) => Some(*s),
        _ => None,
    }
}

fn options(skip_backup: bool, download_only: bool) -> UpgradeOptions {
    UpgradeOptions { skip_backup, download_only, ..UpgradeOptions::default() }
}

#[test]
fn full_upgrade_runs_every_stage_in_order() {
    let (mut flow, first) = UpgradeFlow::start(&options(false, false), "1.0.0", "latest");
    assert_eq!(run_stage(&first), Some(UpgradeStage::CreateBackup));
    let mut seen = vec![UpgradeStage::CreateBackup];
    let mut action = flow.step(ActionOutcome::BackupCreated(42));
    while let Some(stage) = run_stage(&action) {
        seen.push(stage);
        action = flow.step(ActionOutcome::Done);
    }
    assert_eq!(
        seen,
        vec![
            UpgradeStage::CreateBackup,
            UpgradeStage::StopServices,
            UpgradeStage::DownloadAndExtract,
            UpgradeStage::LoadImages,
            UpgradeStage::ApplyFiles,
            UpgradeStage::StartServices,
            UpgradeStage::VerifyServices,
            UpgradeStage::Cleanup,
        ]
    );
    match action {
        UpgradeAction::Finish(r) => {
            assert!(r.success);
            assert_eq!(r.from_version, "1.0.0");
            assert_eq!(r.to_version, "latest");
            assert_eq!(r.backup_id, Some(42));
            assert_eq!(r.error, None);
        }
        _ => panic!("expected the result"),
    }
}

#[test]
fn download_only_upgrade_only_downloads() {
    let (mut flow, first) = UpgradeFlow::start(&options(true, true), "1.0.0", "latest");
    assert_eq!(run_stage(&first), Some(UpgradeStage::DownloadAndExtract));
    match flow.step(ActionOutcome::Done) {
        UpgradeAction::Finish(r) => {
            assert!(r.success);
            assert_eq!(r.backup_id, None);
        }
        _ => panic!("expected the result"),
    }
}

#[test]
fn failure_after_backup_rolls_back() {
    let (mut flow, _) = UpgradeFlow::start(&options(false, false), "1.0.0", "latest");
    flow.step(ActionOutcome::BackupCreated(7));
    flow.step(ActionOutcome::Done);
    match flow.step(ActionOutcome::Failed("下载失败".to_string())) {
        UpgradeAction::Rollback(id) => assert_eq!(id, 7),
        _ => panic!("expected a rollback"),
    }
    match flow.step(ActionOutcome::Done) {
        UpgradeAction::Finish(r) => {
            assert!(!r.success);
            assert_eq!(r.backup_id, Some(7));
            assert_eq!(r.error.as_deref(), Some("升级失败 (下载失败)，但已成功回滚到备份 ID 7"));
        }
        _ => panic!("expected the result"),
    }
    // Once finished, the flow keeps answering with the same result.
    match flow.step(ActionOutcome::Done) {
        UpgradeAction::Finish(r) => {
            assert_eq!(r.error.as_deref(), Some("升级失败 (下载失败)，但已成功回滚到备份 ID 7"))
        }
        _ => panic!("expected the result"),
    }
}

#[test]
fn failure_without_backup_restarts_stopped_services() {
    let (mut flow, _) = UpgradeFlow::start(&options(true, false), "1.0.0", "latest");
    flow.step(ActionOutcome::Done);
    match flow.step(ActionOutcome::Failed("解压失败".to_string())) {
        UpgradeAction::RestartServices => {}
        _ => panic!("expected a restart"),
    }
    match flow.step(ActionOutcome::Failed("docker 未运行".to_string())) {
        UpgradeAction::Finish(r) => assert_eq!(
            r.error.as_deref(),
            Some("升级失败 (解压失败), 并且无法重启原始服务: docker 未运行")
        ),
        _ => panic!("expected the result"),
    }
}

#[test]
fn failure_before_services_stop_reports_the_error() {
    let (mut flow, _) = UpgradeFlow::start(&options(true, false), "1.0.0", "latest");
    match flow.step(ActionOutcome::Failed("无法停止服务".to_string())) {
        UpgradeAction::Finish(r) => {
            assert!(!r.success);
            assert_eq!(r.error.as_deref(), Some("无法停止服务"));
        }
        _ => panic!("expected the result"),
    }
}

#[test]
fn stages_report_their_progress_step() {
    assert!(matches!(progress_step(UpgradeStage::CreateBackup), Some(UpgradeStep::CreatingBackup)));
    assert!(matches!(progress_step(UpgradeStage::DownloadAndExtract), Some(UpgradeStep::DownloadingUpdate)));
    assert!(progress_step(UpgradeStage::ApplyFiles).is_none());
    assert!(matches!(progress_step(UpgradeStage::Cleanup), Some(UpgradeStep::CleaningUp)));
}
