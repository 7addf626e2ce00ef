//! Upgrades of the deployed services: their options and steps, the name of
//! the downloaded package, and the outcome reported after a failure and the
//! recovery attempted.
use vstd::prelude::*;
use vstd::string::StringExecFns;
use crate::backup::BackupOptions;
use crate::database::BackupType;
use crate::split::{split_on, split_on_char, views, signed_decimal, signed_decimal_chars};
use crate::text::{to_chars, from_chars, extend_str, extend_chars};
use crate::sql_diff::types::{opt_view, copy_opt};

verus! {

broadcast use vstd::string::group_string_axioms;

/// How to upgrade.
#[derive(Debug, Clone)]
pub struct UpgradeOptions {
    pub skip_backup: bool,
    pub force: bool,
    pub use_incremental: bool,
    pub backup_dir: Option<String>,
    pub download_only: bool,
}

impl Default for UpgradeOptions {
    fn default() -> (r: UpgradeOptions)
        ensures
            !r.skip_backup && !r.force && !r.use_incremental && r.backup_dir is None
                && !r.download_only,
    {
        UpgradeOptions {
            skip_backup: false,
            force: false,
            use_incremental: false,
            backup_dir: None,
            download_only: false,
        }
    }
}

/// The steps of an upgrade, as reported to its observer.
#[derive(Debug, Clone)]
pub enum UpgradeStep {
    CheckingUpdates,
    CreatingBackup,
    StoppingServices,
    DownloadingUpdate,
    ExtractingUpdate,
    LoadingImages,
    StartingServices,
    VerifyingServices,
    CleaningUp,
    Completed,
    Failed(String),
}

/// The outcome of an upgrade.
#[derive(Debug, Clone)]
pub struct UpgradeResult {
    pub success: bool,
    pub from_version: String,
    pub to_version: String,
    pub error: Option<String>,
    pub backup_id: Option<i64>,
}

/// The name of the package file: the last part of its URL after `/`.
pub fn package_filename(download_url: &str) -> (r: String)
    ensures
        r@ == split_on(download_url@, '/').last(),
{
    let parts = split_on_char(&to_chars(download_url), '/');
    let n = parts.len();
    assert(views(parts@).len() == n);
    from_chars(&parts[n - 1])
}

/// The backup made before an upgrade of `version` deployed in `docker_dir`.
pub fn pre_upgrade_backup(version: &str, docker_dir: &str) -> (r: BackupOptions)
    ensures
        r.backup_type == BackupType::PreUpgrade,
        r.service_version@ == version@,
        r.source_dirs@.len() == 1,
        r.source_dirs@[0]@ == docker_dir@,
        r.compression_level == 6,
{
    let mut dirs: Vec<String> = Vec::new();
    dirs.push(String::from_str(docker_dir));
    BackupOptions {
        backup_type: BackupType::PreUpgrade,
        service_version: String::from_str(version),
        source_dirs: dirs,
        compression_level: 6,
    }
}

/// What to do after an upgrade failed.
#[derive(Debug, Clone, Copy, PartialEq, Eq, Structural)]
pub enum Recovery {
    /// Restore the backup of this id.
    Rollback(i64),
    /// No backup, but the services were stopped: start them again.
    RestartServices,
    Nothing,
}

/// Which recovery follows a failure: a rollback where a backup was made,
/// else a restart where the services had been stopped.
pub open spec fn chosen_recovery(backup_id: Option<i64>, services_stopped: bool) -> Recovery {
    match backup_id {
        Some(id) => Recovery::Rollback(id),
        None => if services_stopped {
            Recovery::RestartServices
        } else {
            Recovery::Nothing
        },
    }
}

/// Chooses the recovery after a failure.
pub fn recovery_for(backup_id: Option<i64>, services_stopped: bool) -> (r: Recovery)
    ensures
        r == chosen_recovery(backup_id, services_stopped),
{
    match backup_id {
        Some(id) => Recovery::Rollback(id),
        None => if services_stopped {
            Recovery::RestartServices
        } else {
            Recovery::Nothing
        },
    }
}

/// How the recovery went.
#[derive(Debug, Clone)]
pub enum RecoveryOutcome {
    RolledBack(i64),
    RollbackFailed(String),
    Restarted,
    RestartFailed(String),
    NotAttempted,
}

/// The error reported for an upgrade that failed with `e` and the recovery
/// that followed.
pub open spec fn failure_text(e: Seq<char>, outcome: RecoveryOutcome) -> Seq<char> {
    match outcome {
        RecoveryOutcome::RolledBack(id) => "升级失败 ("@ + e + ")，但已成功回滚到备份 ID "@
            + signed_decimal(id as int),
        RecoveryOutcome::RollbackFailed(r) => "升级失败 ("@ + e + ")，且回滚操作也失败了: "@ + r@,
        RecoveryOutcome::Restarted => "升级失败 ("@ + e + ")，服务已重启"@,
        RecoveryOutcome::RestartFailed(r) => "升级失败 ("@ + e + "), 并且无法重启原始服务: "@ + r@,
        RecoveryOutcome::NotAttempted => e,
    }
}

impl UpgradeResult {
    /// The result when the service is already current.
    pub fn up_to_date(from_version: &str) -> (r: UpgradeResult)
        ensures
            r.success,
            r.from_version@ == from_version@,
            r.to_version@ == from_version@,
            r.error is None,
            r.backup_id is None,
    {
        UpgradeResult {
            success: true,
            from_version: String::from_str(from_version),
            to_version: String::from_str(from_version),
            error: None,
            backup_id: None,
        }
    }

    /// The result of an upgrade that completed.
    pub fn succeeded(from_version: &str, to_version: &str, backup_id: Option<i64>) -> (r: UpgradeResult)
        ensures
            r.success,
            r.from_version@ == from_version@,
            r.to_version@ == to_version@,
            r.error is None,
            r.backup_id == backup_id,
    {
        UpgradeResult {
            success: true,
            from_version: String::from_str(from_version),
            to_version: String::from_str(to_version),
            error: None,
            backup_id,
        }
    }

    /// The result of an upgrade that failed with `error_text`, after the
    /// recovery described by `outcome`.
    pub fn failed(
        from_version: &str,
        to_version: &str,
        error_text: &str,
        backup_id: Option<i64>,
        outcome: &RecoveryOutcome,
    ) -> (r: UpgradeResult)
        ensures
            !r.success,
            r.from_version@ == from_version@,
            r.to_version@ == to_version@,
            opt_view(r.error) == Some(failure_text(error_text@, *outcome)),
            r.backup_id == backup_id,
    {
        let mut v = to_chars("升级失败 (");
        extend_str(&mut v, error_text);
        let msg = match outcome {
            RecoveryOutcome::RolledBack(id) => {
                extend_str(&mut v, ")，但已成功回滚到备份 ID ");
                let d = signed_decimal_chars(*id);
                extend_chars(&mut v, &d);
                from_chars(&v)
            },
            RecoveryOutcome::RollbackFailed(r) => {
                extend_str(&mut v, ")，且回滚操作也失败了: ");
                extend_str(&mut v, r.as_str());
                from_chars(&v)
            },
            RecoveryOutcome::Restarted => {
                extend_str(&mut v, ")，服务已重启");
                from_chars(&v)
            },
            RecoveryOutcome::RestartFailed(r) => {
                extend_str(&mut v, "), 并且无法重启原始服务: ");
                extend_str(&mut v, r.as_str());
                from_chars(&v)
            },
            RecoveryOutcome::NotAttempted => String::from_str(error_text),
        };
        UpgradeResult {
            success: false,
            from_version: String::from_str(from_version),
            to_version: String::from_str(to_version),
            error: Some(msg),
            backup_id,
        }
    }
}


/// A stage of an upgrade, carried out by the caller.
#[derive(Debug, Clone, Copy, PartialEq, Eq, Structural)]
pub enum UpgradeStage {
    CreateBackup,
    StopServices,
    DownloadAndExtract,
    LoadImages,
    ApplyFiles,
    StartServices,
    VerifyServices,
    Cleanup,
}

/// The stages of an upgrade, in order: a backup unless it is skipped; then,
/// in download-only mode, the download alone; else the services are
/// stopped, the package fetched and unpacked, its images loaded and its files
/// applied, and the services started and checked before the download is
/// removed.
pub open spec fn upgrade_plan(skip_backup: bool, download_only: bool) -> Seq<UpgradeStage> {
    let backup: Seq<UpgradeStage> = if skip_backup {
        Seq::empty()
    } else {
        seq![UpgradeStage::CreateBackup]
    };
    if download_only {
        backup + seq![UpgradeStage::DownloadAndExtract]
    } else {
        backup + seq![
            UpgradeStage::StopServices,
            UpgradeStage::DownloadAndExtract,
            UpgradeStage::LoadImages,
            UpgradeStage::ApplyFiles,
            UpgradeStage::StartServices,
            UpgradeStage::VerifyServices,
            UpgradeStage::Cleanup,
        ]
    }
}

/// The step reported to the observer when a stage begins; applying the
/// files reports none.
pub fn progress_step(stage: UpgradeStage) -> (r: Option<UpgradeStep>)
    ensures
        match stage {
            UpgradeStage::CreateBackup => r matches Some(UpgradeStep::CreatingBackup),
            UpgradeStage::StopServices => r matches Some(UpgradeStep::StoppingServices),
            UpgradeStage::DownloadAndExtract => r matches Some(UpgradeStep::DownloadingUpdate),
            UpgradeStage::LoadImages => r matches Some(UpgradeStep::LoadingImages),
            UpgradeStage::ApplyFiles => r is None,
            UpgradeStage::StartServices => r matches Some(UpgradeStep::StartingServices),
            UpgradeStage::VerifyServices => r matches Some(UpgradeStep::VerifyingServices),
            UpgradeStage::Cleanup => r matches Some(UpgradeStep::CleaningUp),
        },
{
    match stage {
        UpgradeStage::CreateBackup => Some(UpgradeStep::CreatingBackup),
        UpgradeStage::StopServices => Some(UpgradeStep::StoppingServices),
        UpgradeStage::DownloadAndExtract => Some(UpgradeStep::DownloadingUpdate),
        UpgradeStage::LoadImages => Some(UpgradeStep::LoadingImages),
        UpgradeStage::ApplyFiles => None,
        UpgradeStage::StartServices => Some(UpgradeStep::StartingServices),
        UpgradeStage::VerifyServices => Some(UpgradeStep::VerifyingServices),
        UpgradeStage::Cleanup => Some(UpgradeStep::CleaningUp),
    }
}

/// How the last action handed to the caller went.
#[derive(Debug, Clone)]
pub enum ActionOutcome {
    Done,
    /// The backup stage made the backup of this id.
    BackupCreated(i64),
    Failed(String),
}

/// What the caller is to do next.
#[derive(Debug, Clone)]
pub enum UpgradeAction {
    Run(UpgradeStage),
    /// Restore the backup of this id and start the services again.
    Rollback(i64),
    RestartServices,
    Finish(UpgradeResult),
}

/// `a` finishes the upgrade with a result made of these values.
pub open spec fn finishes_with(
    a: UpgradeAction,
    success: bool,
    error: Option<Seq<char>>,
    backup_id: Option<i64>,
    from: Seq<char>,
    to: Seq<char>,
) -> bool {
    match a {
        UpgradeAction::Finish(r) => r.success == success && opt_view(r.error) == error
            && r.backup_id == backup_id && r.from_version@ == from && r.to_version@ == to,
        _ => false,
    }
}

/// The recovery outcome of a failed upgrade whose recovery went as
/// `outcome` says, after a rollback where a backup was made and a restart of
/// the services otherwise.
pub open spec fn recovery_outcome(backup_id: Option<i64>, outcome: ActionOutcome) -> RecoveryOutcome {
    match backup_id {
        Some(id) => match outcome {
            ActionOutcome::Failed(r) => RecoveryOutcome::RollbackFailed(r),
            _ => RecoveryOutcome::RolledBack(id),
        },
        None => match outcome {
            ActionOutcome::Failed(r) => RecoveryOutcome::RestartFailed(r),
            _ => RecoveryOutcome::Restarted,
        },
    }
}

/// An upgrade in progress: the stages it runs, the one running, the backup
/// made, and, once a stage failed, the error being recovered from.
pub struct UpgradeFlow {
    plan: Vec<UpgradeStage>,
    pos: usize,
    services_stopped: bool,
    backup_id: Option<i64>,
    failure: Option<String>,
    finished: bool,
    final_error: Option<String>,
    from_version: String,
    to_version: String,
}

impl UpgradeFlow {
    pub closed spec fn plan(&self) -> Seq<UpgradeStage> {
        self.plan@
    }

    /// The index of the stage running, or of the stage that failed.
    pub closed spec fn pos(&self) -> int {
        self.pos as int
    }

    pub closed spec fn backup_id(&self) -> Option<i64> {
        self.backup_id
    }

    /// The error of the stage that failed, while its recovery runs or after.
    pub closed spec fn failure(&self) -> Option<Seq<char>> {
        opt_view(self.failure)
    }

    pub closed spec fn finished(&self) -> bool {
        self.finished
    }

    /// The error reported once the upgrade has finished.
    pub closed spec fn final_error(&self) -> Option<Seq<char>> {
        opt_view(self.final_error)
    }

    pub closed spec fn from_version(&self) -> Seq<char> {
        self.from_version@
    }

    pub closed spec fn to_version(&self) -> Seq<char> {
        self.to_version@
    }

    /// A stage that stopped the services has completed.
    pub open spec fn services_stopped(&self) -> bool {
        exists|j: int| 0 <= j < self.pos() && self.plan()[j] == UpgradeStage::StopServices
    }

    pub open spec fn running(&self) -> bool {
        !self.finished() && self.failure() is None
    }

    pub open spec fn recovering(&self) -> bool {
        !self.finished() && self.failure() is Some
    }

    pub closed spec fn wf(&self) -> bool {
        &&& 0 <= self.pos < self.plan@.len()
        &&& self.services_stopped == self.services_stopped()
        &&& self.finished ==> self.failure is None || self.final_error is Some
    }

    /// Starts an upgrade from `from_version` to `to_version`: the first
    /// stage of its plan is to run.
    pub fn start(options: &UpgradeOptions, from_version: &str, to_version: &str) -> (r: (
        UpgradeFlow,
        UpgradeAction,
    ))
        ensures
            r.0.wf(),
            r.0.plan() == upgrade_plan(options.skip_backup, options.download_only),
            r.0.pos() == 0,
            r.0.running(),
            r.0.backup_id() is None,
            r.0.from_version() == from_version@,
            r.0.to_version() == to_version@,
            r.1 matches UpgradeAction::Run(s) && s == r.0.plan()[0],
    {
        let mut plan: Vec<UpgradeStage> = Vec::new();
        if !options.skip_backup {
            plan.push(UpgradeStage::CreateBackup);
        }
        if options.download_only {
            plan.push(UpgradeStage::DownloadAndExtract);
        } else {
            plan.push(UpgradeStage::StopServices);
            plan.push(UpgradeStage::DownloadAndExtract);
            plan.push(UpgradeStage::LoadImages);
            plan.push(UpgradeStage::ApplyFiles);
            plan.push(UpgradeStage::StartServices);
            plan.push(UpgradeStage::VerifyServices);
            plan.push(UpgradeStage::Cleanup);
        }
        assert(plan@ == upgrade_plan(options.skip_backup, options.download_only));
        let first = plan[0];
        let flow = UpgradeFlow {
            plan,
            pos: 0,
            services_stopped: false,
            backup_id: None,
            failure: None,
            finished: false,
            final_error: None,
            from_version: String::from_str(from_version),
            to_version: String::from_str(to_version),
        };
        (flow, UpgradeAction::Run(first))
    }

    fn result(&self, success: bool, error: Option<String>) -> (r: UpgradeAction)
        ensures
            finishes_with(r, success, opt_view(error), self.backup_id(), self.from_version(),
                self.to_version()),
    {
        UpgradeAction::Finish(UpgradeResult {
            success,
            from_version: self.from_version.clone(),
            to_version: self.to_version.clone(),
            error,
            backup_id: self.backup_id,
        })
    }

    /// Takes how the last action went and gives the next one: the next
    /// stage after a stage that completed, the result after the last; after
    /// a failed stage, a rollback to the backup where one was made, else a
    /// restart of the services where they had been stopped, else the result;
    /// after the recovery, the result that reports it.
    pub fn step(&mut self, outcome: ActionOutcome) -> (a: UpgradeAction)
        requires
            old(self).wf(),
        ensures
            final(self).wf(),
            final(self).plan() == old(self).plan(),
            final(self).from_version() == old(self).from_version(),
            final(self).to_version() == old(self).to_version(),
            old(self).running() && !(outcome is Failed) ==> {
                let b = match outcome {
                    ActionOutcome::BackupCreated(id) => Some(id),
                    _ => old(self).backup_id(),
                };
                &&& final(self).backup_id() == b
                &&& if old(self).pos() + 1 < old(self).plan().len() {
                    &&& final(self).running()
                    &&& final(self).pos() == old(self).pos() + 1
                    &&& a matches UpgradeAction::Run(s) && s == old(self).plan()[old(self).pos()
                        + 1]
                } else {
                    &&& final(self).finished()
                    &&& final(self).final_error() is None
                    &&& finishes_with(a, true, None, b, old(self).from_version(),
                        old(self).to_version())
                }
            },
            old(self).running() && outcome is Failed ==> {
                let e = outcome->Failed_0@;
                &&& final(self).backup_id() == old(self).backup_id()
                &&& final(self).pos() == old(self).pos()
                &&& final(self).failure() == Some(e)
                &&& match chosen_recovery(old(self).backup_id(), old(self).services_stopped()) {
                    Recovery::Rollback(id) => final(self).recovering() && (a matches
                        UpgradeAction::Rollback(x) && x == id),
                    Recovery::RestartServices => final(self).recovering()
                        && a is RestartServices,
                    Recovery::Nothing => final(self).finished() && final(self).final_error()
                        == Some(e) && finishes_with(a, false, Some(e),
                        old(self).backup_id(), old(self).from_version(),
                        old(self).to_version()),
                }
            },
            old(self).recovering() ==> {
                let text = failure_text(
                    old(self).failure()->Some_0,
                    recovery_outcome(old(self).backup_id(), outcome),
                );
                &&& final(self).finished()
                &&& final(self).backup_id() == old(self).backup_id()
                &&& final(self).final_error() == Some(text)
                &&& finishes_with(a, false, Some(text), old(self).backup_id(),
                    old(self).from_version(), old(self).to_version())
            },
            old(self).finished() ==> {
                &&& final(self).finished()
                &&& final(self).backup_id() == old(self).backup_id()
                &&& final(self).final_error() == old(self).final_error()
                &&& finishes_with(a, old(self).final_error() is None,
                    old(self).final_error(), old(self).backup_id(),
                    old(self).from_version(), old(self).to_version())
            },
    {
        if self.finished {
            let err = copy_opt(&self.final_error);
            return self.result(self.final_error.is_none(), err);
        }
        match &self.failure {
            Some(e) => {
                let outcome_rec = match (self.backup_id, outcome) {
                    (Some(id), ActionOutcome::Failed(r)) => RecoveryOutcome::RollbackFailed(r),
                    (Some(id), _) => RecoveryOutcome::RolledBack(id),
                    (None, ActionOutcome::Failed(r)) => RecoveryOutcome::RestartFailed(r),
                    (None, _) => RecoveryOutcome::Restarted,
                };
                let r = UpgradeResult::failed(
                    self.from_version.as_str(),
                    self.to_version.as_str(),
                    e.as_str(),
                    self.backup_id,
                    &outcome_rec,
                );
                let text = copy_opt(&r.error);
                self.final_error = text;
                self.finished = true;
                UpgradeAction::Finish(r)
            },
            None => match outcome {
                ActionOutcome::Failed(e) => {
                    let rec = recovery_for(self.backup_id, self.services_stopped);
                    match rec {
                        Recovery::Rollback(id) => {
                            self.failure = Some(e);
                            UpgradeAction::Rollback(id)
                        },
                        Recovery::RestartServices => {
                            self.failure = Some(e);
                            UpgradeAction::RestartServices
                        },
                        Recovery::Nothing => {
                            let e2 = e.clone();
                            let e3 = e.clone();
                            self.failure = Some(e);
                            self.final_error = Some(e2);
                            self.finished = true;
                            self.result(false, Some(e3))
                        },
                    }
                },
                _ => {
                    if let ActionOutcome::BackupCreated(id) = outcome {
                        self.backup_id = Some(id);
                    }
                    let p = self.pos;
                    let n = self.plan.len();
                    assert(p < n);
                    let done = self.plan[p];
                    if p + 1 < n {
                        proof {
                            let ghost p = self.pos as int;
                            assert((exists|j: int|
                                0 <= j < p + 1 && self.plan@[j] == UpgradeStage::StopServices)
                                == (self.services_stopped || done == UpgradeStage::StopServices))
                                by {
                                if done == UpgradeStage::StopServices {
                                    assert(self.plan@[p] == UpgradeStage::StopServices);
                                }
                            }
                        }
                        self.services_stopped = self.services_stopped || done == UpgradeStage::StopServices;
                        self.pos = self.pos + 1;
                        UpgradeAction::Run(self.plan[self.pos])
                    } else {
                        self.finished = true;
                        self.final_error = None;
                        self.result(true, None)
                    }
                },
            },
        }
    }
}


/// The backup, when it is not skipped, is the first stage and comes before
/// the services are touched; a download-only upgrade never stops the
/// services; every other upgrade stops them before it loads anything and
/// starts them again after.
pub proof fn law_upgrade_plan_order(skip_backup: bool, download_only: bool)
    ensures
        ({
            let p = upgrade_plan(skip_backup, download_only);
            &&& !skip_backup ==> p[0] == UpgradeStage::CreateBackup
            &&& forall|j: int| 0 < j < p.len() ==> p[j] != UpgradeStage::CreateBackup
            &&& skip_backup ==> forall|j: int| 0 <= j < p.len() ==> p[j]
                != UpgradeStage::CreateBackup
            &&& download_only ==> forall|j: int| 0 <= j < p.len() ==> p[j]
                != UpgradeStage::StopServices
            &&& !download_only ==> exists|i: int, k: int|
                0 <= i < k < p.len() && p[i] == UpgradeStage::StopServices && p[k]
                    == UpgradeStage::StartServices && (forall|j: int| 0 <= j < i ==> p[j]
                    == UpgradeStage::CreateBackup)
        }),
{
    let p = upgrade_plan(skip_backup, download_only);
    if !download_only {
        let o: int = if skip_backup { 0 } else { 1 };
        assert(p[o] == UpgradeStage::StopServices && p[o + 4] == UpgradeStage::StartServices);
    }
}


/// Law: after a failure with error `e`, the reported error says how the
/// recovery went: with a backup, a rollback that succeeded names the backup
/// and one that failed names its reason and never claims success; without
/// one, the restart likewise.
pub proof fn law_recovery_is_reported(e: Seq<char>, id: i64, r: String)
    ensures
        failure_text(e, recovery_outcome(Some(id), ActionOutcome::Failed(r)))
            == "升级失败 ("@ + e + ")，且回滚操作也失败了: "@ + r@,
        failure_text(e, recovery_outcome(Some(id), ActionOutcome::Done))
            == "升级失败 ("@ + e + ")，但已成功回滚到备份 ID "@ + signed_decimal(id as int),
        failure_text(e, recovery_outcome(None, ActionOutcome::Failed(r)))
            == "升级失败 ("@ + e + "), 并且无法重启原始服务: "@ + r@,
        failure_text(e, recovery_outcome(None, ActionOutcome::Done)) == "升级失败 ("@ + e
            + ")，服务已重启"@,
{
}

} // verus!
