//! What the command line decides of its own: which prepared phases it executes,
//! in which order host preparation proceeds, and with which code it exits.
use vstd::prelude::*;

use crate::outcome;
use crate::text;

verus! {

/// The account that an action runs as.
#[derive(Debug, Clone, Copy, PartialEq, Eq, Structural)]
pub enum ExecutionLane {
    Root,
    RunnerUser,
}

/// The reviewed commands that an action can stand for.
#[derive(Debug, Clone, Copy, PartialEq, Eq, Structural)]
pub enum LaneCommandKind {
    AptInstall,
    RunnerGitVersion,
    RunnerPodmanMigrate,
}

#[derive(Debug, Clone, Copy, PartialEq, Eq, Structural)]
pub enum RollbackClass {
    Irreversible,
}

/// One action of a host-preparation phase.
#[derive(Debug, PartialEq, Eq)]
pub struct ExecutableHostPreparationAction {
    pub id: String,
    pub lane: ExecutionLane,
    pub command_kind: LaneCommandKind,
    pub rollback: RollbackClass,
    pub summary: String,
    pub depends_on: Vec<String>,
}

#[derive(Debug, Clone, Copy, PartialEq, Eq, Structural)]
pub enum HostPreparePhaseKind {
    Root,
    RunnerUserMigration,
}

/// Every action of the phase runs as root, and there is one.
pub open spec fn is_root_phase(actions: Seq<ExecutableHostPreparationAction>) -> bool {
    actions.len() > 0 && forall|i: int|
        0 <= i < actions.len() ==> (#[trigger] actions[i]).lane == ExecutionLane::Root
}

/// The phase is exactly one reviewed migration of the runner user's containers.
pub open spec fn is_migration_phase(actions: Seq<ExecutableHostPreparationAction>) -> bool {
    actions.len() == 1 && actions[0].lane == ExecutionLane::RunnerUser && actions[0].command_kind
        == LaneCommandKind::RunnerPodmanMigrate
}

/// What [`classify_host_prepare_actions`] answers.
pub open spec fn classified_actions(actions: Seq<ExecutableHostPreparationAction>) -> Result<
    HostPreparePhaseKind,
    Seq<char>,
> {
    if is_root_phase(actions) {
        Ok(HostPreparePhaseKind::Root)
    } else if is_migration_phase(actions) {
        Ok(HostPreparePhaseKind::RunnerUserMigration)
    } else {
        Err(
            "host preparation executes only an all-root phase or exactly one reviewed runner-user Podman migration action"@,
        )
    }
}

/// Decides whether a phase is one that host preparation executes.
pub fn classify_host_prepare_actions(actions: &[ExecutableHostPreparationAction]) -> (r: Result<
    HostPreparePhaseKind,
    &'static str,
>)
    ensures
        match r {
            Ok(kind) => classified_actions(actions@) == Ok::<_, Seq<char>>(kind),
            Err(message) => classified_actions(actions@) == Err::<HostPreparePhaseKind, _>(
                message@,
            ),
        },
{
    let mut all_root = true;
    let mut i: usize = 0;
    while i < actions.len()
        invariant
            i <= actions@.len(),
            all_root == (forall|k: int|
                0 <= k < i ==> (#[trigger] actions@[k]).lane == ExecutionLane::Root),
        decreases actions@.len() - i,
    {
        if actions[i].lane != ExecutionLane::Root {
            all_root = false;
        }
        i += 1;
    }
    if actions.len() > 0 && all_root {
        return Ok(HostPreparePhaseKind::Root);
    }
    if actions.len() == 1 && actions[0].lane == ExecutionLane::RunnerUser
        && actions[0].command_kind == LaneCommandKind::RunnerPodmanMigrate {
        return Ok(HostPreparePhaseKind::RunnerUserMigration);
    }
    Err(
        "host preparation executes only an all-root phase or exactly one reviewed runner-user Podman migration action",
    )
}

/// How a command exits.
#[derive(Debug, Clone, Copy, PartialEq, Eq, Structural)]
pub enum CommandExit {
    Success,
    Failure,
    /// The command could not be carried out or its output not be written.
    Unusable,
}

impl CommandExit {
    pub open spec fn spec_code(self) -> u8 {
        match self {
            CommandExit::Success => 0,
            CommandExit::Failure => 1,
            CommandExit::Unusable => 2,
        }
    }

    pub fn code(self) -> (code: u8)
        ensures
            code == self.spec_code(),
    {
        match self {
            CommandExit::Success => 0,
            CommandExit::Failure => 1,
            CommandExit::Unusable => 2,
        }
    }
}

/// How a command exits whose report was written, or could not be.
pub fn exit_after_report(written: bool, exit: CommandExit) -> (r: CommandExit)
    ensures
        r == (if written {
            exit
        } else {
            CommandExit::Unusable
        }),
{
    if written {
        exit
    } else {
        CommandExit::Unusable
    }
}

/// How an inspection of the host exits: failures always count, warnings only
/// where they are asked to.
pub fn doctor_exit(written: bool, has_failures: bool, has_warnings: bool, strict: bool) -> (r:
    CommandExit)
    ensures
        r == (if !written {
            CommandExit::Unusable
        } else if has_failures || (strict && has_warnings) {
            CommandExit::Failure
        } else {
            CommandExit::Success
        }),
{
    let exit = if has_failures || (strict && has_warnings) {
        CommandExit::Failure
    } else {
        CommandExit::Success
    };
    exit_after_report(written, exit)
}

/// The number of random bytes in a journal identifier.
pub const JOURNAL_RANDOM_BYTES: usize = 16;

/// The journal identifier made of random bytes.
pub open spec fn journal_id_text(random: Seq<u8>) -> Seq<char> {
    "host-prepare-"@ + text::hex_text(random)
}

/// What [`host_prepare_journal_id`] answers.
pub open spec fn journal_id(random: Option<Seq<u8>>) -> Result<Seq<char>, Seq<char>> {
    match random {
        None => Err(
            "could not obtain operating-system randomness for a host-preparation journal ID"@,
        ),
        Some(bytes) => if bytes.len() == JOURNAL_RANDOM_BYTES {
            Ok(journal_id_text(bytes))
        } else {
            Err(
                "operating-system randomness returned an incomplete host-preparation journal ID"@,
            )
        },
    }
}

/// The identifier of a new journal, from random bytes that were obtained or
/// not.
pub fn host_prepare_journal_id(random: &Option<Vec<u8>>) -> (r: Result<String, String>)
    ensures
        outcome::is_outcome(r, journal_id(outcome::option_view(*random))),
{
    match random {
        None => Err(
            "could not obtain operating-system randomness for a host-preparation journal ID".to_owned(),
        ),
        Some(bytes) => {
            if bytes.len() != JOURNAL_RANDOM_BYTES {
                return Err(
                    "operating-system randomness returned an incomplete host-preparation journal ID".to_owned(),
                );
            }
            let digits = text::hex_of(bytes.as_slice());
            Ok(text::joined("host-prepare-", digits.as_str()))
        },
    }
}

/// What was decided of a host-preparation proposal.
#[derive(Debug, Clone, Copy, PartialEq, Eq, Structural)]
pub enum HostPreparationCommandDisposition {
    Ready,
    Blocked,
    ConfirmationRequired,
    ConfirmationMismatch,
    Confirmed,
}

#[derive(Debug, Clone, Copy, PartialEq, Eq, Structural)]
pub enum HostPreparationExecutionDisposition {
    Completed,
    FreshObservationRequired,
    ActionFailed,
}

/// What is known of the runner user that a migration runs as.
#[derive(Debug, PartialEq, Eq)]
pub enum RunnerUserReading {
    /// No exact runner account is configured.
    NotConfigured,
    Verified,
    /// The account could not be verified, for this reason.
    Refused(String),
}

/// Which installation the project is enrolled in.
#[derive(Debug, PartialEq, Eq)]
pub enum InstallationReading {
    Found(String),
    Missing,
    /// The lookup failed, for this reason.
    Failed(String),
}

/// What is learned in the course of one host preparation. What stands behind
/// an end was not learned and does not matter.
#[derive(Debug)]
pub struct HostPrepareRun {
    pub manifest_loaded: bool,
    /// Why the host could not be inspected.
    pub readiness_refused: Option<String>,
    /// The decision, or why none could be made.
    pub decision: Result<HostPreparationCommandDisposition, String>,
    pub decision_written: bool,
    /// The actions of the confirmed phase.
    pub actions: Vec<ExecutableHostPreparationAction>,
    pub announced: bool,
    pub runner_user: RunnerUserReading,
    pub installation: InstallationReading,
    pub random: Option<Vec<u8>>,
    /// Why the state root could not be opened.
    pub store_refused: Option<String>,
    /// How the execution ended; nothing if it failed with its own report.
    pub executed: Option<HostPreparationExecutionDisposition>,
    pub report_written: bool,
}

/// How a host preparation ends.
#[derive(Debug, PartialEq, Eq)]
pub enum HostPrepareEnd {
    /// The manifest was refused, and the refusal reported.
    ManifestRefused,
    /// A runtime error of this kind is reported.
    Refused { kind: &'static str, message: String },
    /// The decision itself is the report.
    Decided { exit: CommandExit },
    /// The decision could not be announced before anything changed.
    NotAnnounced,
    /// The execution failed and reported itself.
    ExecutionFailed,
    Executed { exit: CommandExit },
}

pub enum EndView {
    ManifestRefused,
    Refused { kind: Seq<char>, message: Seq<char> },
    Decided { exit: CommandExit },
    NotAnnounced,
    ExecutionFailed,
    Executed { exit: CommandExit },
}

impl View for HostPrepareEnd {
    type V = EndView;

    open spec fn view(&self) -> EndView {
        match self {
            HostPrepareEnd::ManifestRefused => EndView::ManifestRefused,
            HostPrepareEnd::Refused { kind, message } => EndView::Refused {
                kind: kind@,
                message: message@,
            },
            HostPrepareEnd::Decided { exit } => EndView::Decided { exit: *exit },
            HostPrepareEnd::NotAnnounced => EndView::NotAnnounced,
            HostPrepareEnd::ExecutionFailed => EndView::ExecutionFailed,
            HostPrepareEnd::Executed { exit } => EndView::Executed { exit: *exit },
        }
    }
}

impl EndView {
    pub open spec fn exit(self) -> CommandExit {
        match self {
            EndView::Decided { exit } => exit,
            EndView::Executed { exit } => exit,
            _ => CommandExit::Unusable,
        }
    }
}

impl HostPrepareEnd {
    pub fn exit(&self) -> (exit: CommandExit)
        ensures
            exit == self@.exit(),
    {
        match self {
            HostPrepareEnd::Decided { exit } => *exit,
            HostPrepareEnd::Executed { exit } => *exit,
            _ => CommandExit::Unusable,
        }
    }
}

pub open spec fn refused(kind: Seq<char>, message: Seq<char>) -> EndView {
    EndView::Refused { kind, message }
}

/// Why a confirmed phase cannot run as the runner user, if it has to.
pub open spec fn runner_user_end(kind: HostPreparePhaseKind, reading: RunnerUserReading) -> Option<
    EndView,
> {
    match kind {
        HostPreparePhaseKind::Root => None,
        HostPreparePhaseKind::RunnerUserMigration => match reading {
            RunnerUserReading::NotConfigured => Some(
                refused(
                    "runner_user_evidence"@,
                    "runner-user migration requires an exact configured runner account"@,
                ),
            ),
            RunnerUserReading::Verified => None,
            RunnerUserReading::Refused(message) => Some(
                refused("runner_user_evidence"@, message@),
            ),
        },
    }
}

pub open spec fn installation_end(reading: InstallationReading) -> Option<EndView> {
    match reading {
        InstallationReading::Found(_) => None,
        InstallationReading::Missing => Some(
            refused(
                "installation_missing"@,
                "no enrolled SmolRunner installation matches the manifest project; host preparation does not bootstrap state or enroll projects"@,
            ),
        ),
        InstallationReading::Failed(reason) => Some(
            refused(
                "installation_lookup"@,
                "could not resolve the manifest project installation: "@ + reason@,
            ),
        ),
    }
}

/// What was decided, reported as it is.
pub open spec fn decided_end(exit: CommandExit, written: bool) -> EndView {
    EndView::Decided {
        exit: if written {
            exit
        } else {
            CommandExit::Unusable
        },
    }
}

/// How the part of a host preparation ends that a confirmed phase leads to.
pub open spec fn confirmed_end(run: HostPrepareRun) -> EndView {
    match classified_actions(run.actions@) {
        Err(message) => refused("unsupported_host_preparation_phase"@, message),
        Ok(kind) => if !run.announced {
            EndView::NotAnnounced
        } else if runner_user_end(kind, run.runner_user) is Some {
            runner_user_end(kind, run.runner_user)->0
        } else if installation_end(run.installation) is Some {
            installation_end(run.installation)->0
        } else {
            match journal_id(outcome::option_view(run.random)) {
                Err(message) => refused("journal_id"@, message),
                Ok(_) => match run.store_refused {
                    Some(reason) => refused(
                        "state_store"@,
                        "could not open the reviewed state root: "@ + reason@,
                    ),
                    None => match run.executed {
                        None => EndView::ExecutionFailed,
                        Some(disposition) => EndView::Executed {
                            exit: if !run.report_written {
                                CommandExit::Unusable
                            } else if disposition
                                == HostPreparationExecutionDisposition::ActionFailed {
                                CommandExit::Failure
                            } else {
                                CommandExit::Success
                            },
                        },
                    },
                },
            }
        },
    }
}

/// What [`run_host_prepare`] answers.
pub open spec fn host_prepare_end(run: HostPrepareRun) -> EndView {
    if !run.manifest_loaded {
        EndView::ManifestRefused
    } else {
        match run.readiness_refused {
            Some(reason) => refused(
                "host_readiness_probe"@,
                "failed to inspect host readiness: "@ + reason@,
            ),
            None => match run.decision {
                Err(message) => refused("host_preparation_decision"@, message@),
                Ok(HostPreparationCommandDisposition::Ready) => decided_end(
                    CommandExit::Success,
                    run.decision_written,
                ),
                Ok(HostPreparationCommandDisposition::Confirmed) => confirmed_end(run),
                Ok(_) => decided_end(CommandExit::Failure, run.decision_written),
            },
        }
    }
}

fn refuse(kind: &'static str, message: &str) -> (end: HostPrepareEnd)
    ensures
        end@ == refused(kind@, message@),
{
    HostPrepareEnd::Refused { kind, message: message.to_owned() }
}

fn check_runner_user(kind: HostPreparePhaseKind, reading: &RunnerUserReading) -> (end: Option<
    HostPrepareEnd,
>)
    ensures
        outcome::option_view(end) == runner_user_end(kind, *reading),
{
    match kind {
        HostPreparePhaseKind::Root => None,
        HostPreparePhaseKind::RunnerUserMigration => match reading {
            RunnerUserReading::NotConfigured => Some(
                refuse(
                    "runner_user_evidence",
                    "runner-user migration requires an exact configured runner account",
                ),
            ),
            RunnerUserReading::Verified => None,
            RunnerUserReading::Refused(message) => Some(
                refuse("runner_user_evidence", message.as_str()),
            ),
        },
    }
}

fn not_enrolled() -> (end: HostPrepareEnd)
    ensures
        Some(end@) == installation_end(InstallationReading::Missing),
{
    refuse(
        "installation_missing",
        "no enrolled SmolRunner installation matches the manifest project; host preparation does not bootstrap state or enroll projects",
    )
}

fn lookup_failed(reason: &str) -> (end: HostPrepareEnd)
    ensures
        end@ == refused(
            "installation_lookup"@,
            "could not resolve the manifest project installation: "@ + reason@,
        ),
{
    let message = text::joined("could not resolve the manifest project installation: ", reason);
    refuse("installation_lookup", message.as_str())
}

/// What host preparation does next.
#[derive(Debug, PartialEq, Eq)]
pub enum HostPrepareStage {
    LoadManifest,
    InspectHost,
    Decide,
    /// The decision is reported, and nothing else is done.
    ReportDecision { exit: CommandExit },
    /// The decision is announced before anything changes.
    Announce { kind: HostPreparePhaseKind },
    VerifyRunnerUser,
    FindInstallation { kind: HostPreparePhaseKind },
    DrawJournalId { kind: HostPreparePhaseKind, installation: String },
    OpenStore { kind: HostPreparePhaseKind, installation: String, journal: String },
    Execute { kind: HostPreparePhaseKind, installation: String, journal: String },
    ReportExecution { exit: CommandExit },
    Ended { end: HostPrepareEnd },
}

pub enum StageView {
    LoadManifest,
    InspectHost,
    Decide,
    ReportDecision { exit: CommandExit },
    Announce { kind: HostPreparePhaseKind },
    VerifyRunnerUser,
    FindInstallation { kind: HostPreparePhaseKind },
    DrawJournalId { kind: HostPreparePhaseKind, installation: Seq<char> },
    OpenStore { kind: HostPreparePhaseKind, installation: Seq<char>, journal: Seq<char> },
    Execute { kind: HostPreparePhaseKind, installation: Seq<char>, journal: Seq<char> },
    ReportExecution { exit: CommandExit },
    Ended { end: EndView },
}

impl View for HostPrepareStage {
    type V = StageView;

    open spec fn view(&self) -> StageView {
        match self {
            HostPrepareStage::LoadManifest => StageView::LoadManifest,
            HostPrepareStage::InspectHost => StageView::InspectHost,
            HostPrepareStage::Decide => StageView::Decide,
            HostPrepareStage::ReportDecision { exit } => StageView::ReportDecision { exit: *exit },
            HostPrepareStage::Announce { kind } => StageView::Announce { kind: *kind },
            HostPrepareStage::VerifyRunnerUser => StageView::VerifyRunnerUser,
            HostPrepareStage::FindInstallation { kind } => StageView::FindInstallation {
                kind: *kind,
            },
            HostPrepareStage::DrawJournalId { kind, installation } => StageView::DrawJournalId {
                kind: *kind,
                installation: installation@,
            },
            HostPrepareStage::OpenStore { kind, installation, journal } => StageView::OpenStore {
                kind: *kind,
                installation: installation@,
                journal: journal@,
            },
            HostPrepareStage::Execute { kind, installation, journal } => StageView::Execute {
                kind: *kind,
                installation: installation@,
                journal: journal@,
            },
            HostPrepareStage::ReportExecution { exit } => StageView::ReportExecution {
                exit: *exit,
            },
            HostPrepareStage::Ended { end } => StageView::Ended { end: end@ },
        }
    }
}

impl StageView {
    /// How many stages can still follow.
    pub open spec fn remaining(self) -> nat {
        match self {
            StageView::LoadManifest => 11,
            StageView::InspectHost => 10,
            StageView::Decide => 9,
            StageView::Announce { .. } => 8,
            StageView::VerifyRunnerUser => 7,
            StageView::FindInstallation { .. } => 6,
            StageView::DrawJournalId { .. } => 5,
            StageView::OpenStore { .. } => 4,
            StageView::Execute { .. } => 3,
            StageView::ReportExecution { .. } => 2,
            StageView::ReportDecision { .. } => 1,
            StageView::Ended { .. } => 0,
        }
    }
}

pub open spec fn ended(end: EndView) -> StageView {
    StageView::Ended { end }
}

/// The stage behind the decision.
pub open spec fn stage_after_decision(run: HostPrepareRun) -> StageView {
    match run.decision {
        Err(message) => ended(refused("host_preparation_decision"@, message@)),
        Ok(HostPreparationCommandDisposition::Ready) => StageView::ReportDecision {
            exit: CommandExit::Success,
        },
        Ok(HostPreparationCommandDisposition::Confirmed) => match classified_actions(run.actions@) {
            Err(message) => ended(refused("unsupported_host_preparation_phase"@, message)),
            Ok(kind) => StageView::Announce { kind },
        },
        Ok(_) => StageView::ReportDecision { exit: CommandExit::Failure },
    }
}

/// What [`host_prepare_step`] answers.
pub open spec fn next_stage(stage: StageView, run: HostPrepareRun) -> StageView {
    match stage {
        StageView::LoadManifest => if run.manifest_loaded {
            StageView::InspectHost
        } else {
            ended(EndView::ManifestRefused)
        },
        StageView::InspectHost => match run.readiness_refused {
            Some(reason) => ended(
                refused(
                    "host_readiness_probe"@,
                    "failed to inspect host readiness: "@ + reason@,
                ),
            ),
            None => StageView::Decide,
        },
        StageView::Decide => stage_after_decision(run),
        StageView::ReportDecision { exit } => ended(decided_end(exit, run.decision_written)),
        StageView::Announce { kind } => if !run.announced {
            ended(EndView::NotAnnounced)
        } else {
            match kind {
                HostPreparePhaseKind::Root => StageView::FindInstallation { kind },
                HostPreparePhaseKind::RunnerUserMigration => StageView::VerifyRunnerUser,
            }
        },
        StageView::VerifyRunnerUser => match runner_user_end(
            HostPreparePhaseKind::RunnerUserMigration,
            run.runner_user,
        ) {
            Some(end) => ended(end),
            None => StageView::FindInstallation { kind: HostPreparePhaseKind::RunnerUserMigration },
        },
        StageView::FindInstallation { kind } => match run.installation {
            InstallationReading::Found(installation) => StageView::DrawJournalId {
                kind,
                installation: installation@,
            },
            _ => ended(installation_end(run.installation)->0),
        },
        StageView::DrawJournalId { kind, installation } => match journal_id(
            outcome::option_view(run.random),
        ) {
            Err(message) => ended(refused("journal_id"@, message)),
            Ok(journal) => StageView::OpenStore { kind, installation, journal },
        },
        StageView::OpenStore { kind, installation, journal } => match run.store_refused {
            Some(reason) => ended(
                refused("state_store"@, "could not open the reviewed state root: "@ + reason@),
            ),
            None => StageView::Execute { kind, installation, journal },
        },
        StageView::Execute { .. } => match run.executed {
            None => ended(EndView::ExecutionFailed),
            Some(disposition) => StageView::ReportExecution {
                exit: if disposition == HostPreparationExecutionDisposition::ActionFailed {
                    CommandExit::Failure
                } else {
                    CommandExit::Success
                },
            },
        },
        StageView::ReportExecution { exit } => ended(
            EndView::Executed {
                exit: if run.report_written {
                    exit
                } else {
                    CommandExit::Unusable
                },
            },
        ),
        StageView::Ended { end } => ended(end),
    }
}

/// The end that a stage leads to on what is learned from there on.
pub open spec fn end_from(stage: StageView, run: HostPrepareRun) -> EndView
    decreases stage.remaining(),
{
    match stage {
        StageView::Ended { end } => end,
        _ => end_from(next_stage(stage, run), run),
    }
}

impl HostPrepareRun {
    /// A run of which nothing was learned yet. Each stage that is not answered
    /// ends it.
    pub fn unlearned() -> (run: Self)
        ensures
            !run.manifest_loaded,
            run.readiness_refused is Some,
            run.decision is Err,
            !run.decision_written,
            run.actions@.len() == 0,
            !run.announced,
            run.runner_user is NotConfigured,
            run.installation is Missing,
            run.random is None,
            run.store_refused is Some,
            run.executed is None,
            !run.report_written,
    {
        HostPrepareRun {
            manifest_loaded: false,
            readiness_refused: Some("the host was not inspected".to_owned()),
            decision: Err("nothing was decided".to_owned()),
            decision_written: false,
            actions: Vec::new(),
            announced: false,
            runner_user: RunnerUserReading::NotConfigured,
            installation: InstallationReading::Missing,
            random: None,
            store_refused: Some("it was not opened".to_owned()),
            executed: None,
            report_written: false,
        }
    }
}

fn decide_stage(run: &HostPrepareRun) -> (stage: HostPrepareStage)
    ensures
        stage@ == stage_after_decision(*run),
{
    match &run.decision {
        Err(message) => HostPrepareStage::Ended {
            end: refuse("host_preparation_decision", message.as_str()),
        },
        Ok(HostPreparationCommandDisposition::Ready) => HostPrepareStage::ReportDecision {
            exit: CommandExit::Success,
        },
        Ok(HostPreparationCommandDisposition::Confirmed) => match classify_host_prepare_actions(
            run.actions.as_slice(),
        ) {
            Err(message) => HostPrepareStage::Ended {
                end: refuse("unsupported_host_preparation_phase", message),
            },
            Ok(kind) => HostPrepareStage::Announce { kind },
        },
        Ok(_) => HostPrepareStage::ReportDecision { exit: CommandExit::Failure },
    }
}

/// Decides what follows a stage, once what the stage asks for was learned.
pub fn host_prepare_step(stage: HostPrepareStage, run: &HostPrepareRun) -> (next: HostPrepareStage)
    ensures
        next@ == next_stage(stage@, *run),
{
    match stage {
        HostPrepareStage::LoadManifest => if run.manifest_loaded {
            HostPrepareStage::InspectHost
        } else {
            HostPrepareStage::Ended { end: HostPrepareEnd::ManifestRefused }
        },
        HostPrepareStage::InspectHost => match &run.readiness_refused {
            Some(reason) => {
                let message = text::joined("failed to inspect host readiness: ", reason.as_str());
                HostPrepareStage::Ended { end: refuse("host_readiness_probe", message.as_str()) }
            },
            None => HostPrepareStage::Decide,
        },
        HostPrepareStage::Decide => decide_stage(run),
        HostPrepareStage::ReportDecision { exit } => HostPrepareStage::Ended {
            end: HostPrepareEnd::Decided { exit: exit_after_report(run.decision_written, exit) },
        },
        HostPrepareStage::Announce { kind } => if !run.announced {
            HostPrepareStage::Ended { end: HostPrepareEnd::NotAnnounced }
        } else {
            match kind {
                HostPreparePhaseKind::Root => HostPrepareStage::FindInstallation { kind },
                HostPreparePhaseKind::RunnerUserMigration => HostPrepareStage::VerifyRunnerUser,
            }
        },
        HostPrepareStage::VerifyRunnerUser => {
            let kind = HostPreparePhaseKind::RunnerUserMigration;
            match check_runner_user(kind, &run.runner_user) {
                Some(end) => HostPrepareStage::Ended { end },
                None => HostPrepareStage::FindInstallation { kind },
            }
        },
        HostPrepareStage::FindInstallation { kind } => match &run.installation {
            InstallationReading::Found(installation) => HostPrepareStage::DrawJournalId {
                kind,
                installation: installation.as_str().to_owned(),
            },
            InstallationReading::Missing => HostPrepareStage::Ended { end: not_enrolled() },
            InstallationReading::Failed(reason) => HostPrepareStage::Ended {
                end: lookup_failed(reason.as_str()),
            },
        },
        HostPrepareStage::DrawJournalId { kind, installation } => match host_prepare_journal_id(
            &run.random,
        ) {
            Err(message) => HostPrepareStage::Ended {
                end: refuse("journal_id", message.as_str()),
            },
            Ok(journal) => HostPrepareStage::OpenStore { kind, installation, journal },
        },
        HostPrepareStage::OpenStore { kind, installation, journal } => match &run.store_refused {
            Some(reason) => {
                let message = text::joined(
                    "could not open the reviewed state root: ",
                    reason.as_str(),
                );
                HostPrepareStage::Ended { end: refuse("state_store", message.as_str()) }
            },
            None => HostPrepareStage::Execute { kind, installation, journal },
        },
        HostPrepareStage::Execute { kind: _, installation: _, journal: _ } => match run.executed {
            None => HostPrepareStage::Ended { end: HostPrepareEnd::ExecutionFailed },
            Some(disposition) => HostPrepareStage::ReportExecution {
                exit: if disposition == HostPreparationExecutionDisposition::ActionFailed {
                    CommandExit::Failure
                } else {
                    CommandExit::Success
                },
            },
        },
        HostPrepareStage::ReportExecution { exit } => HostPrepareStage::Ended {
            end: HostPrepareEnd::Executed { exit: exit_after_report(run.report_written, exit) },
        },
        HostPrepareStage::Ended { end } => HostPrepareStage::Ended { end },
    }
}

/// Stage by stage, a host preparation ends as it does on all that was learned.
pub proof fn law_stages_lead_to_the_end(run: HostPrepareRun)
    ensures
        end_from(StageView::LoadManifest, run) == host_prepare_end(run),
{
    reveal_with_fuel(end_from, 12);
}

/// Decides how a host preparation ends on what was learned in the course of it.
pub fn run_host_prepare(run: &HostPrepareRun) -> (end: HostPrepareEnd)
    ensures
        end@ == host_prepare_end(*run),
{
    let mut stage = HostPrepareStage::LoadManifest;
    proof {
        law_stages_lead_to_the_end(*run);
    }
    loop
        invariant
            end_from(stage@, *run) == host_prepare_end(*run),
        decreases stage@.remaining(),
    {
        match stage {
            HostPrepareStage::Ended { end } => {
                return end;
            },
            other => {
                stage = host_prepare_step(other, run);
            },
        }
    }
}

/// A host is only ever changed by a confirmed phase that is all root or one
/// reviewed migration, after the decision was announced and the project's
/// installation found.
pub proof fn law_execution_is_confirmed(run: HostPrepareRun)
    requires
        host_prepare_end(run) is Executed || host_prepare_end(run) is ExecutionFailed,
    ensures
        run.decision == Ok::<HostPreparationCommandDisposition, String>(
            HostPreparationCommandDisposition::Confirmed,
        ),
        is_root_phase(run.actions@) || is_migration_phase(run.actions@),
        is_migration_phase(run.actions@) ==> run.runner_user is Verified,
        run.announced,
        run.installation is Found,
        run.store_refused is None,
{
    if is_root_phase(run.actions@) && is_migration_phase(run.actions@) {
        assert(run.actions@[0].lane == ExecutionLane::Root);
    }
}

/// A host preparation exits with success only if there was nothing to do or
/// the execution did not fail, and the report was written.
pub proof fn law_success_is_reported(run: HostPrepareRun)
    requires
        host_prepare_end(run).exit() == CommandExit::Success,
    ensures
        (run.decision_written && run.decision == Ok::<HostPreparationCommandDisposition, String>(
            HostPreparationCommandDisposition::Ready,
        )) || (run.report_written && run.executed is Some && run.executed->0
            != HostPreparationExecutionDisposition::ActionFailed),
{
}

/// A host is prepared by one phase: actions of root alone, at least one of
/// them, or the one migration of the runner user; nothing else is executed.
pub proof fn law_phases_are_of_one_lane(actions: Seq<ExecutableHostPreparationAction>)
    ensures
        classified_actions(actions) == Ok::<HostPreparePhaseKind, Seq<char>>(
            HostPreparePhaseKind::Root,
        ) <==> actions.len() >= 1 && forall|i: int|
            0 <= i < actions.len() ==> (#[trigger] actions[i]).lane == ExecutionLane::Root,
        classified_actions(actions) == Ok::<HostPreparePhaseKind, Seq<char>>(
            HostPreparePhaseKind::RunnerUserMigration,
        ) <==> actions.len() == 1 && actions[0].lane == ExecutionLane::RunnerUser
            && actions[0].command_kind == LaneCommandKind::RunnerPodmanMigrate,
        actions.len() == 0 ==> classified_actions(actions) is Err,
{
}

/// A journal is named only by sixteen random bytes, spelled in hexadecimal.
pub proof fn law_journals_are_named_at_random(random: Option<Seq<u8>>)
    ensures
        journal_id(random) is Ok <==> random is Some && random->0.len() == 16,
        journal_id(random) matches Ok(id) ==> id.len() == 45 && text::has_prefix(
            id,
            "host-prepare-"@,
        ) && id.skip(13) == text::hex_text(random->0),
{
    reveal_strlit("host-prepare-");
    if journal_id(random) is Ok {
        let id = journal_id(random)->Ok_0;
        text::lemma_hex_text(random->0);
        assert(id.take(13) =~= "host-prepare-"@);
        assert(id.skip(13) =~= text::hex_text(random->0));
    }
}

/// A run ends where the first thing goes wrong, and executes exactly when
/// nothing does: the manifest and the host are read, the decision is confirmed
/// and announced, the actions form one phase, a migration has its verified
/// user, the installation is found, a journal is named and the store opens.
pub proof fn law_runs_execute_when_everything_is_in_place(run: HostPrepareRun)
    ensures
        ({
            let end = host_prepare_end(run);
            let phase = classified_actions(run.actions@);
            &&& end is Executed || end is ExecutionFailed <==> {
                &&& run.manifest_loaded
                &&& run.readiness_refused is None
                &&& run.decision == Ok::<HostPreparationCommandDisposition, String>(
                    HostPreparationCommandDisposition::Confirmed,
                )
                &&& phase is Ok
                &&& run.announced
                &&& phase->Ok_0 == HostPreparePhaseKind::RunnerUserMigration
                    ==> run.runner_user is Verified
                &&& run.installation is Found
                &&& run.random is Some && run.random->0@.len() == 16
                &&& run.store_refused is None
            }
            &&& end is ExecutionFailed ==> run.executed is None
            &&& end matches EndView::Executed { exit } ==> {
                &&& run.executed is Some
                &&& exit == CommandExit::Success <==> run.report_written && run.executed->0
                    != HostPreparationExecutionDisposition::ActionFailed
                &&& exit == CommandExit::Failure <==> run.report_written && run.executed->0
                    == HostPreparationExecutionDisposition::ActionFailed
            }
            &&& end is ManifestRefused <==> !run.manifest_loaded
            &&& run.manifest_loaded && run.readiness_refused is Some ==> end is Refused
            &&& end matches EndView::Decided { exit } ==> {
                &&& run.decision is Ok && run.decision->Ok_0
                    != HostPreparationCommandDisposition::Confirmed
                &&& exit == CommandExit::Success <==> run.decision_written && run.decision->Ok_0
                    == HostPreparationCommandDisposition::Ready
                &&& exit == CommandExit::Unusable <==> !run.decision_written
            }
        }),
{
}

/// What is executed is what was found and drawn: the installation, the journal
/// and the phase stay the same from the stage that learns them on.
pub proof fn law_stages_carry_what_they_learned(
    kind: HostPreparePhaseKind,
    installation: Seq<char>,
    journal: Seq<char>,
    run: HostPrepareRun,
)
    ensures
        next_stage(StageView::Announce { kind }, run) matches StageView::FindInstallation {
            kind: found,
        } ==> found == kind,
        run.installation matches InstallationReading::Found(name) ==> next_stage(
            StageView::FindInstallation { kind },
            run,
        ) == (StageView::DrawJournalId { kind, installation: name@ }),
        next_stage(
            StageView::DrawJournalId { kind, installation },
            run,
        ) matches StageView::OpenStore { kind: k, installation: i, journal: j } ==> k == kind && i
            == installation && journal_id(outcome::option_view(run.random)) == Ok::<
            Seq<char>,
            Seq<char>,
        >(j),
        next_stage(
            StageView::OpenStore { kind, installation, journal },
            run,
        ) matches StageView::Execute { kind: k, installation: i, journal: j } ==> k == kind && i
            == installation && j == journal,
{
}

/// A command succeeds with status zero alone, fails with one, and reports with
/// two that it could not be carried out; a report that was not written is never
/// a success.
pub proof fn law_exit_codes_are_distinct(exit: CommandExit)
    ensures
        exit.spec_code() == 0 <==> exit == CommandExit::Success,
        exit.spec_code() == 1 <==> exit == CommandExit::Failure,
        exit.spec_code() == 2 <==> exit == CommandExit::Unusable,
{
}

} // verus!
