//! Bounded observation of macOS host resources.
use vstd::prelude::*;

use crate::lima_processes;
use crate::lima_processes::LimaProcessObservation;
use crate::mac_availability::{HostPowerSource, MemoryPressure, ObservationFreshness};
use crate::macos_readings;
use crate::outcome;
use crate::process;
use crate::process::{CommandExecutor, CommandSpec, CommandView, ExecutionRecord, RecordView};
use crate::scan;
use crate::text;

verus! {

pub const MACOS_RESOURCE_OBSERVATION_SCHEMA_VERSION: u8 = 1;

pub const DEFAULT_FRESHNESS_WINDOW_MILLIS: u64 = 30_000;

pub const MAX_SMALL_OUTPUT_BYTES: usize = 65_536;

pub const MAX_PROCESS_OUTPUT_BYTES: usize = 524_288;

pub const MAX_PUBLIC_LIMA_PROCESSES: usize = 64;

pub const SWAP_ROUNDING_TOLERANCE_BYTES: u64 = 65_536;

#[derive(Debug, Clone, Copy, PartialEq, Eq, Structural)]
pub enum ObservationCompleteness {
    Complete,
    Partial,
}

#[derive(Debug, Clone, Copy, PartialEq, Eq, Structural)]
pub enum BatteryChargeState {
    Charging,
    Charged,
    Discharging,
    Unknown,
}

#[derive(Debug, Clone, Copy, PartialEq, Eq)]
pub struct MacPowerObservation {
    pub source: HostPowerSource,
    pub battery_percent: Option<u8>,
    pub charge_state: BatteryChargeState,
}

#[derive(Debug, Clone, Copy, PartialEq, Eq)]
pub struct SwapObservation {
    pub total_bytes: u64,
    pub used_bytes: u64,
    pub free_bytes: u64,
    pub encrypted: Option<bool>,
}

#[derive(Debug, Clone, Copy, PartialEq, Eq, Structural)]
pub enum MacOsResourceProblemKind {
    StaleObservation,
    MemoryPressureUnavailable,
    SwapUnavailable,
    PowerUnavailable,
    BatteryDetailsUnavailable,
    LimaProcessObservationUnavailable,
    LimaProcessListTruncated,
}

#[derive(Debug, PartialEq, Eq)]
pub struct MacOsResourceReport {
    pub schema_version: u8,
    pub observed_at_millis: u64,
    pub freshness: ObservationFreshness,
    pub completeness: ObservationCompleteness,
    pub memory_pressure: MemoryPressure,
    pub swap: Option<SwapObservation>,
    pub power: MacPowerObservation,
    pub lima_processes: Vec<LimaProcessObservation>,
    pub problems: Vec<MacOsResourceProblemKind>,
}

pub struct ReportView {
    pub schema_version: u8,
    pub observed_at_millis: u64,
    pub freshness: ObservationFreshness,
    pub completeness: ObservationCompleteness,
    pub memory_pressure: MemoryPressure,
    pub swap: Option<SwapObservation>,
    pub power: MacPowerObservation,
    pub lima_processes: Seq<LimaProcessObservation>,
    pub problems: Seq<MacOsResourceProblemKind>,
}

impl View for MacOsResourceReport {
    type V = ReportView;

    open spec fn view(&self) -> ReportView {
        ReportView {
            schema_version: self.schema_version,
            observed_at_millis: self.observed_at_millis,
            freshness: self.freshness,
            completeness: self.completeness,
            memory_pressure: self.memory_pressure,
            swap: self.swap,
            power: self.power,
            lima_processes: self.lima_processes@,
            problems: self.problems@,
        }
    }
}

/// The records of the four commands, where they left one.
struct PrivateEvidence {
    memory_pressure: Option<ExecutionRecord>,
    swap: Option<ExecutionRecord>,
    power: Option<ExecutionRecord>,
    processes: Option<ExecutionRecord>,
}

pub struct EvidenceView {
    pub memory_pressure: Option<RecordView>,
    pub swap: Option<RecordView>,
    pub power: Option<RecordView>,
    pub processes: Option<RecordView>,
}

impl View for PrivateEvidence {
    type V = EvidenceView;

    closed spec fn view(&self) -> EvidenceView {
        EvidenceView {
            memory_pressure: outcome::option_view(self.memory_pressure),
            swap: outcome::option_view(self.swap),
            power: outcome::option_view(self.power),
            processes: outcome::option_view(self.processes),
        }
    }
}

impl EvidenceView {
    /// How many of the four commands left a record.
    pub open spec fn captured_sources(self) -> nat {
        (if self.memory_pressure is Some {
            1nat
        } else {
            0
        }) + (if self.swap is Some {
            1nat
        } else {
            0
        }) + (if self.power is Some {
            1nat
        } else {
            0
        }) + (if self.processes is Some {
            1nat
        } else {
            0
        })
    }
}

/// A public report, with the private records that it was read from.
pub struct MacOsResourceObservation {
    report: MacOsResourceReport,
    private_evidence: PrivateEvidence,
}

pub struct ObservationView {
    pub report: ReportView,
    pub evidence: EvidenceView,
}

impl View for MacOsResourceObservation {
    type V = ObservationView;

    closed spec fn view(&self) -> ObservationView {
        ObservationView { report: self.report@, evidence: self.private_evidence@ }
    }
}

impl PrivateEvidence {
    fn captured_source_count(&self) -> (count: u64)
        ensures
            count == self@.captured_sources(),
    {
        let mut count: u64 = 0;
        if self.memory_pressure.is_some() {
            count += 1;
        }
        if self.swap.is_some() {
            count += 1;
        }
        if self.power.is_some() {
            count += 1;
        }
        if self.processes.is_some() {
            count += 1;
        }
        count
    }
}

impl MacOsResourceObservation {
    pub fn report(&self) -> (report: &MacOsResourceReport)
        ensures
            report@ == self@.report,
    {
        &self.report
    }

    pub fn into_report(self) -> (report: MacOsResourceReport)
        ensures
            report@ == self@.report,
    {
        self.report
    }

    /// What may be printed of the private records: how many there are.
    pub fn redacted_evidence(&self) -> (line: String)
        ensures
            line@ == "private_evidence: [REDACTED], captured_sources: "@ + text::decimal(
                self@.evidence.captured_sources(),
            ),
    {
        let count = self.private_evidence.captured_source_count();
        text::joined(
            "private_evidence: [REDACTED], captured_sources: ",
            text::decimal_text(count).as_str(),
        )
    }
}

#[derive(Debug, Clone, Copy, PartialEq, Eq)]
pub struct MacOsResourceObservationError {
    pub field: &'static str,
    pub code: &'static str,
    pub message: &'static str,
}

pub struct ObservationErrorView {
    pub field: Seq<char>,
    pub code: Seq<char>,
    pub message: Seq<char>,
}

impl View for MacOsResourceObservationError {
    type V = ObservationErrorView;

    open spec fn view(&self) -> ObservationErrorView {
        ObservationErrorView {
            field: self.field@,
            code: self.code@,
            message: self.message@,
        }
    }
}

impl MacOsResourceObservationError {
    /// The error for a human reader.
    pub fn display(&self) -> (line: String)
        ensures
            line@ == self@.code + ": "@ + self@.message,
    {
        let mut line = text::joined(self.code, ": ");
        line.append(self.message);
        line
    }
}

pub open spec fn command(program: Seq<char>, first: Seq<char>, second: Seq<char>) -> CommandView {
    CommandView { program, arguments: seq![first, second], environment: Seq::empty() }
}

pub open spec fn memory_pressure_request() -> CommandView {
    command("/usr/sbin/sysctl"@, "-n"@, "kern.memorystatus_vm_pressure_level"@)
}

pub open spec fn swap_request() -> CommandView {
    command("/usr/sbin/sysctl"@, "-n"@, "vm.swapusage"@)
}

pub open spec fn power_request() -> CommandView {
    command("/usr/bin/pmset"@, "-g"@, "batt"@)
}

pub open spec fn lima_process_request() -> CommandView {
    command("/bin/ps"@, "-axo"@, "pid=,ppid=,%cpu=,rss=,etime=,comm="@)
}

fn command_of(program: &str, first: &str, second: &str) -> (r: CommandSpec)
    ensures
        r@ == command(program@, first@, second@),
{
    let r = CommandSpec::new(program).argument(first).argument(second);
    assert(r@.arguments =~= seq![first@, second@]);
    r
}

pub fn memory_pressure_command() -> (r: CommandSpec)
    ensures
        r@ == memory_pressure_request(),
{
    command_of("/usr/sbin/sysctl", "-n", "kern.memorystatus_vm_pressure_level")
}

pub fn swap_command() -> (r: CommandSpec)
    ensures
        r@ == swap_request(),
{
    command_of("/usr/sbin/sysctl", "-n", "vm.swapusage")
}

pub fn power_command() -> (r: CommandSpec)
    ensures
        r@ == power_request(),
{
    command_of("/usr/bin/pmset", "-g", "batt")
}

pub fn lima_process_command() -> (r: CommandSpec)
    ensures
        r@ == lima_process_request(),
{
    command_of("/bin/ps", "-axo", "pid=,ppid=,%cpu=,rss=,etime=,comm=")
}

/// A text of at most `limit` bytes without the NUL character.
pub open spec fn is_bounded_output(output: Seq<char>, limit: usize) -> bool {
    vstd::utf8::encode_utf8(output).len() <= limit && !output.contains('\0')
}

/// The record is of this very command, which succeeded within bounds and
/// complained of nothing.
pub open spec fn is_clean_record(request: CommandView, record: RecordView, limit: usize) -> bool {
    &&& record.argv == request.argv()
    &&& record.environment_keys.len() == 0
    &&& is_bounded_output(record.stdout, limit)
    &&& record.success
    &&& record.status == Some(0i32)
    &&& record.stderr.len() == 0
}

/// The output of a command that left a clean record.
pub open spec fn clean_output(
    request: CommandView,
    record: Option<RecordView>,
    limit: usize,
) -> Option<Seq<char>> {
    match record {
        Some(value) => if is_clean_record(request, value, limit) {
            Some(value.stdout)
        } else {
            None
        },
        None => None,
    }
}

fn has_nul(content: &str) -> (r: bool)
    ensures
        r == content@.contains('\0'),
{
    let chars = text::chars_of(content);
    let at = scan::position_of(chars.as_slice(), '\0');
    proof {
        scan::lemma_first_position_found(chars@, '\0');
    }
    assert(at < chars@.len() ==> chars@[at as int] == '\0');
    at < chars.len()
}

fn clean_receipt(request: &CommandSpec, receipt: &ExecutionRecord, max_bytes: usize) -> (r: bool)
    ensures
        r == is_clean_record(request@, receipt@, max_bytes),
{
    let argv = request.displayed_argv();
    let named = process::same_texts(&receipt.argv, &argv);
    let silent = text::chars_of(receipt.stderr.as_str()).len() == 0;
    let status = match receipt.status {
        Some(code) => code == 0,
        None => false,
    };
    named && receipt.environment_keys.len() == 0 && text::byte_length(receipt.stdout.as_str())
        <= max_bytes && !has_nul(receipt.stdout.as_str()) && receipt.success && status && silent
}

pub open spec fn swap_reading(output: Seq<char>) -> Option<SwapObservation> {
    match (
        macos_readings::named_quantity(output, "total"@),
        macos_readings::named_quantity(output, "used"@),
        macos_readings::named_quantity(output, "free"@),
    ) {
        (Some(total_bytes), Some(used_bytes), Some(free_bytes)) => {
            let difference = total_bytes - (used_bytes + free_bytes);
            if used_bytes + free_bytes <= u64::MAX && -SWAP_ROUNDING_TOLERANCE_BYTES <= difference
                <= SWAP_ROUNDING_TOLERANCE_BYTES {
                Some(
                    SwapObservation {
                        total_bytes,
                        used_bytes,
                        free_bytes,
                        encrypted: if scan::contains_text(
                            scan::lowered(output),
                            "(encrypted)"@,
                        ) {
                            Some(true)
                        } else if scan::contains_text(scan::lowered(output), "(unencrypted)"@) {
                            Some(false)
                        } else {
                            None
                        },
                    },
                )
            } else {
                None
            }
        },
        _ => None,
    }
}

pub open spec fn power_source(line: Seq<char>) -> HostPowerSource {
    if scan::contains_text(line, "'AC Power'"@) {
        HostPowerSource::Ac
    } else if scan::contains_text(line, "'Battery Power'"@) {
        HostPowerSource::Battery
    } else {
        HostPowerSource::Unknown
    }
}

pub open spec fn charge_state(output: Seq<char>) -> BatteryChargeState {
    let lower = scan::lowered(output);
    if scan::contains_text(lower, "; discharging;"@) {
        BatteryChargeState::Discharging
    } else if scan::contains_text(lower, "; charging;"@) || scan::contains_text(
        lower,
        "; finishing charge;"@,
    ) {
        BatteryChargeState::Charging
    } else if scan::contains_text(lower, "; charged;"@) {
        BatteryChargeState::Charged
    } else {
        BatteryChargeState::Unknown
    }
}

pub open spec fn power_reading(output: Seq<char>) -> Option<MacPowerObservation> {
    let lines = scan::nonblank_lines(output);
    if lines.len() == 0 {
        None
    } else {
        Some(
            MacPowerObservation {
                source: power_source(lines[0]),
                battery_percent: macos_readings::battery_percent(output),
                charge_state: charge_state(output),
            },
        )
    }
}

pub open spec fn unknown_power() -> MacPowerObservation {
    MacPowerObservation {
        source: HostPowerSource::Unknown,
        battery_percent: None,
        charge_state: BatteryChargeState::Unknown,
    }
}

fn parse_memory_pressure_receipt(request: &CommandSpec, receipt: &ExecutionRecord) -> (r: Option<
    MemoryPressure,
>)
    ensures
        r == (match clean_output(request@, Some(receipt@), MAX_SMALL_OUTPUT_BYTES) {
            Some(output) => macos_readings::memory_pressure(output),
            None => None,
        }),
{
    if !clean_receipt(request, receipt, MAX_SMALL_OUTPUT_BYTES) {
        return None;
    }
    macos_readings::parse_memory_pressure_output(receipt.stdout.as_str())
}

fn parse_swap_receipt(request: &CommandSpec, receipt: &ExecutionRecord) -> (r: Option<
    SwapObservation,
>)
    ensures
        r == (match clean_output(request@, Some(receipt@), MAX_SMALL_OUTPUT_BYTES) {
            Some(output) => swap_reading(output),
            None => None,
        }),
{
    if !clean_receipt(request, receipt, MAX_SMALL_OUTPUT_BYTES) {
        return None;
    }
    let output = text::chars_of(receipt.stdout.as_str());
    let total_bytes = match macos_readings::parse_named_quantity(output.as_slice(), "total") {
        Some(value) => value,
        None => {
            return None;
        },
    };
    let used_bytes = match macos_readings::parse_named_quantity(output.as_slice(), "used") {
        Some(value) => value,
        None => {
            return None;
        },
    };
    let free_bytes = match macos_readings::parse_named_quantity(output.as_slice(), "free") {
        Some(value) => value,
        None => {
            return None;
        },
    };
    let combined = match used_bytes.checked_add(free_bytes) {
        Some(combined) => combined,
        None => {
            return None;
        },
    };
    let difference = if total_bytes >= combined {
        total_bytes - combined
    } else {
        combined - total_bytes
    };
    if difference > SWAP_ROUNDING_TOLERANCE_BYTES {
        return None;
    }
    let lower = scan::to_lower(output.as_slice());
    let encrypted = if scan::contains(lower.as_slice(), "(encrypted)") {
        Some(true)
    } else if scan::contains(lower.as_slice(), "(unencrypted)") {
        Some(false)
    } else {
        None
    };
    Some(SwapObservation { total_bytes, used_bytes, free_bytes, encrypted })
}

fn source_of(line: &[char]) -> (source: HostPowerSource)
    ensures
        source == power_source(line@),
{
    if scan::contains(line, "'AC Power'") {
        HostPowerSource::Ac
    } else if scan::contains(line, "'Battery Power'") {
        HostPowerSource::Battery
    } else {
        HostPowerSource::Unknown
    }
}

fn charge_state_of(output: &[char]) -> (state: BatteryChargeState)
    ensures
        state == charge_state(output@),
{
    let lower = scan::to_lower(output);
    if scan::contains(lower.as_slice(), "; discharging;") {
        BatteryChargeState::Discharging
    } else if scan::contains(lower.as_slice(), "; charging;") || scan::contains(
        lower.as_slice(),
        "; finishing charge;",
    ) {
        BatteryChargeState::Charging
    } else if scan::contains(lower.as_slice(), "; charged;") {
        BatteryChargeState::Charged
    } else {
        BatteryChargeState::Unknown
    }
}

fn parse_power_receipt(request: &CommandSpec, receipt: &ExecutionRecord) -> (r: Option<
    MacPowerObservation,
>)
    ensures
        r == (match clean_output(request@, Some(receipt@), MAX_SMALL_OUTPUT_BYTES) {
            Some(output) => power_reading(output),
            None => None,
        }),
{
    if !clean_receipt(request, receipt, MAX_SMALL_OUTPUT_BYTES) {
        return None;
    }
    let output = text::chars_of(receipt.stdout.as_str());
    let lines = scan::lines_of(output.as_slice());
    if lines.len() == 0 {
        return None;
    }
    assert(lines@[0]@ == scan::nonblank_lines(output@)[0]);
    Some(
        MacPowerObservation {
            source: source_of(lines[0].as_slice()),
            battery_percent: macos_readings::parse_unique_battery_percent(output.as_slice()),
            charge_state: charge_state_of(output.as_slice()),
        },
    )
}

/// The process table of a clean record of the listing command.
pub open spec fn recorded_table(
    request: CommandView,
    record: Option<RecordView>,
) -> Option<Seq<lima_processes::ProcessView>> {
    match clean_output(request, record, MAX_PROCESS_OUTPUT_BYTES) {
        Some(output) => lima_processes::process_table(output),
        None => None,
    }
}

/// Reads the Lima processes of the listing command's record.
pub fn parse_process_receipt(request: &CommandSpec, receipt: &ExecutionRecord) -> (r: Option<
    Vec<LimaProcessObservation>,
>)
    ensures
        match (r, recorded_table(request@, Some(receipt@))) {
            (Some(listing), Some(rows)) => lima_processes::is_lima_listing(rows, listing@),
            (None, None) => true,
            _ => false,
        },
{
    if !clean_receipt(request, receipt, MAX_PROCESS_OUTPUT_BYTES) {
        return None;
    }
    lima_processes::lima_listing(receipt.stdout.as_str())
}

/// A problem where it applies.
pub open spec fn problem_if(
    applies: bool,
    kind: MacOsResourceProblemKind,
) -> Seq<MacOsResourceProblemKind> {
    if applies {
        seq![kind]
    } else {
        Seq::empty()
    }
}

pub open spec fn memory_level(evidence: EvidenceView) -> MemoryPressure {
    match clean_output(
        memory_pressure_request(),
        evidence.memory_pressure,
        MAX_SMALL_OUTPUT_BYTES,
    ) {
        Some(output) => match macos_readings::memory_pressure(output) {
            Some(level) => level,
            None => MemoryPressure::Unknown,
        },
        None => MemoryPressure::Unknown,
    }
}

pub open spec fn swap_use(evidence: EvidenceView) -> Option<SwapObservation> {
    match clean_output(swap_request(), evidence.swap, MAX_SMALL_OUTPUT_BYTES) {
        Some(output) => swap_reading(output),
        None => None,
    }
}

pub open spec fn power_state(evidence: EvidenceView) -> MacPowerObservation {
    match clean_output(power_request(), evidence.power, MAX_SMALL_OUTPUT_BYTES) {
        Some(output) => match power_reading(output) {
            Some(power) => power,
            None => unknown_power(),
        },
        None => unknown_power(),
    }
}

/// The Lima listing that the evidence holds, or none where the evidence holds
/// no process table.
pub open spec fn is_recorded_listing(
    evidence: EvidenceView,
    listing: Option<Seq<LimaProcessObservation>>,
) -> bool {
    match (listing, recorded_table(lima_process_request(), evidence.processes)) {
        (Some(processes), Some(rows)) => lima_processes::is_lima_listing(rows, processes),
        (None, None) => true,
        _ => false,
    }
}

/// What is reported of evidence whose Lima listing is `listing`.
pub open spec fn resource_report(
    evidence: EvidenceView,
    listing: Option<Seq<LimaProcessObservation>>,
    observed_at_millis: u64,
    now_millis: u64,
    freshness_window_millis: u64,
) -> ReportView {
    let stale = now_millis - observed_at_millis > freshness_window_millis;
    let memory_pressure = memory_level(evidence);
    let swap = swap_use(evidence);
    let power = power_state(evidence);
    let processes = match listing {
        Some(all) => all,
        None => Seq::empty(),
    };
    let problems = problem_if(stale, MacOsResourceProblemKind::StaleObservation) + problem_if(
        memory_pressure == MemoryPressure::Unknown,
        MacOsResourceProblemKind::MemoryPressureUnavailable,
    ) + problem_if(swap is None, MacOsResourceProblemKind::SwapUnavailable) + problem_if(
        power.source == HostPowerSource::Unknown,
        MacOsResourceProblemKind::PowerUnavailable,
    ) + problem_if(
        power.source == HostPowerSource::Battery && power.battery_percent is None,
        MacOsResourceProblemKind::BatteryDetailsUnavailable,
    ) + problem_if(
        listing is None,
        MacOsResourceProblemKind::LimaProcessObservationUnavailable,
    ) + problem_if(
        processes.len() > MAX_PUBLIC_LIMA_PROCESSES,
        MacOsResourceProblemKind::LimaProcessListTruncated,
    );
    ReportView {
        schema_version: MACOS_RESOURCE_OBSERVATION_SCHEMA_VERSION,
        observed_at_millis,
        freshness: if stale {
            ObservationFreshness::Stale
        } else {
            ObservationFreshness::Fresh
        },
        completeness: if problems.len() == 0 {
            ObservationCompleteness::Complete
        } else {
            ObservationCompleteness::Partial
        },
        memory_pressure,
        swap,
        power,
        lima_processes: if processes.len() > MAX_PUBLIC_LIMA_PROCESSES {
            processes.take(MAX_PUBLIC_LIMA_PROCESSES as int)
        } else {
            processes
        },
        problems,
    }
}

/// The report is what the evidence and the times make it.
pub open spec fn is_report_of(
    evidence: EvidenceView,
    observed_at_millis: u64,
    now_millis: u64,
    freshness_window_millis: u64,
    report: ReportView,
) -> bool {
    exists|listing: Option<Seq<LimaProcessObservation>>| #[trigger]
        is_recorded_listing(evidence, listing) && report == resource_report(
            evidence,
            listing,
            observed_at_millis,
            now_millis,
            freshness_window_millis,
        )
}

pub open spec fn time_error(field: Seq<char>, code: Seq<char>, message: Seq<char>) -> Option<
    ObservationErrorView,
> {
    Some(ObservationErrorView { field, code, message })
}

/// Why the supplied times are refused, if they are.
pub open spec fn refused_times(
    observed_at_millis: u64,
    now_millis: u64,
    freshness_window_millis: u64,
) -> Option<ObservationErrorView> {
    if observed_at_millis == 0 {
        time_error(
            "observed_at_millis"@,
            "invalid_observation_time"@,
            "observation time must be greater than zero"@,
        )
    } else if freshness_window_millis == 0 {
        time_error(
            "freshness_window_millis"@,
            "invalid_freshness_window"@,
            "freshness window must be greater than zero"@,
        )
    } else if now_millis < observed_at_millis {
        time_error(
            "now_millis"@,
            "observation_time_reversal"@,
            "comparison time cannot precede the observation time"@,
        )
    } else {
        None
    }
}

/// The evidence is what the executor can leave of the four commands.
pub open spec fn is_evidence_from<E: CommandExecutor>(executor: E, evidence: EvidenceView) -> bool {
    &&& executor.can_leave(memory_pressure_request(), evidence.memory_pressure)
    &&& executor.can_leave(swap_request(), evidence.swap)
    &&& executor.can_leave(power_request(), evidence.power)
    &&& executor.can_leave(lima_process_request(), evidence.processes)
}

fn add_problem(
    problems: &mut Vec<MacOsResourceProblemKind>,
    applies: bool,
    kind: MacOsResourceProblemKind,
)
    ensures
        final(problems)@ == old(problems)@ + problem_if(applies, kind),
{
    let ghost before = problems@;
    if applies {
        problems.push(kind);
    }
    assert(problems@ =~= before + problem_if(applies, kind));
}

fn execute<E: CommandExecutor>(executor: &E, request: &CommandSpec) -> (record: Option<
    ExecutionRecord,
>)
    ensures
        executor.can_leave(request@, outcome::option_view(record)),
{
    match executor.execute(request) {
        Ok(record) => Some(record),
        Err(_) => None,
    }
}

/// Reports on the records of the four commands.
///
/// Commands that left no record, or none that can be read, are named as
/// problems; what they would have told is unknown, never absent.
fn observation_of(
    private_evidence: PrivateEvidence,
    observed_at_millis: u64,
    now_millis: u64,
    freshness_window_millis: u64,
) -> (observation: MacOsResourceObservation)
    requires
        observed_at_millis <= now_millis,
    ensures
        observation@.evidence == private_evidence@,
        is_report_of(
            private_evidence@,
            observed_at_millis,
            now_millis,
            freshness_window_millis,
            observation@.report,
        ),
{
    let stale = now_millis - observed_at_millis > freshness_window_millis;
    let memory_pressure = match &private_evidence.memory_pressure {
        Some(receipt) => match parse_memory_pressure_receipt(&memory_pressure_command(), receipt) {
            Some(level) => level,
            None => MemoryPressure::Unknown,
        },
        None => MemoryPressure::Unknown,
    };
    let swap = match &private_evidence.swap {
        Some(receipt) => parse_swap_receipt(&swap_command(), receipt),
        None => None,
    };
    let read_power = match &private_evidence.power {
        Some(receipt) => parse_power_receipt(&power_command(), receipt),
        None => None,
    };
    let power = match read_power {
        Some(power) => power,
        None => MacPowerObservation {
            source: HostPowerSource::Unknown,
            battery_percent: None,
            charge_state: BatteryChargeState::Unknown,
        },
    };
    let listing = match &private_evidence.processes {
        Some(receipt) => parse_process_receipt(&lima_process_command(), receipt),
        None => None,
    };
    let ghost recorded = outcome::option_view(listing);
    assert(is_recorded_listing(private_evidence@, recorded));
    let unlisted = listing.is_none();
    let mut lima_processes: Vec<LimaProcessObservation> = match listing {
        Some(processes) => processes,
        None => Vec::new(),
    };
    let truncated = lima_processes.len() > MAX_PUBLIC_LIMA_PROCESSES;
    if truncated {
        let ghost whole = lima_processes@;
        lima_processes.truncate(MAX_PUBLIC_LIMA_PROCESSES);
        assert(lima_processes@ =~= whole.take(MAX_PUBLIC_LIMA_PROCESSES as int));
    }
    let mut problems: Vec<MacOsResourceProblemKind> = Vec::new();
    add_problem(&mut problems, stale, MacOsResourceProblemKind::StaleObservation);
    add_problem(
        &mut problems,
        memory_pressure == MemoryPressure::Unknown,
        MacOsResourceProblemKind::MemoryPressureUnavailable,
    );
    add_problem(&mut problems, swap.is_none(), MacOsResourceProblemKind::SwapUnavailable);
    add_problem(
        &mut problems,
        power.source == HostPowerSource::Unknown,
        MacOsResourceProblemKind::PowerUnavailable,
    );
    add_problem(
        &mut problems,
        power.source == HostPowerSource::Battery && power.battery_percent.is_none(),
        MacOsResourceProblemKind::BatteryDetailsUnavailable,
    );
    add_problem(
        &mut problems,
        unlisted,
        MacOsResourceProblemKind::LimaProcessObservationUnavailable,
    );
    add_problem(&mut problems, truncated, MacOsResourceProblemKind::LimaProcessListTruncated);
    let ghost expected = resource_report(
        private_evidence@,
        recorded,
        observed_at_millis,
        now_millis,
        freshness_window_millis,
    );
    assert(problems@ =~= expected.problems);
    let completeness = if problems.len() == 0 {
        ObservationCompleteness::Complete
    } else {
        ObservationCompleteness::Partial
    };
    let report = MacOsResourceReport {
        schema_version: MACOS_RESOURCE_OBSERVATION_SCHEMA_VERSION,
        observed_at_millis,
        freshness: if stale {
            ObservationFreshness::Stale
        } else {
            ObservationFreshness::Fresh
        },
        completeness,
        memory_pressure,
        swap,
        power,
        lima_processes,
        problems,
    };
    assert(report@ == expected);
    MacOsResourceObservation { report, private_evidence }
}

/// Checks the supplied times.
fn check_times(observed_at_millis: u64, now_millis: u64, freshness_window_millis: u64) -> (r: Result<
    (),
    MacOsResourceObservationError,
>)
    ensures
        match r {
            Ok(_) => refused_times(observed_at_millis, now_millis, freshness_window_millis) is None,
            Err(e) => refused_times(observed_at_millis, now_millis, freshness_window_millis)
                == Some(e@),
        },
{
    if observed_at_millis == 0 {
        return Err(
            MacOsResourceObservationError {
                field: "observed_at_millis",
                code: "invalid_observation_time",
                message: "observation time must be greater than zero",
            },
        );
    }
    if freshness_window_millis == 0 {
        return Err(
            MacOsResourceObservationError {
                field: "freshness_window_millis",
                code: "invalid_freshness_window",
                message: "freshness window must be greater than zero",
            },
        );
    }
    if now_millis < observed_at_millis {
        return Err(
            MacOsResourceObservationError {
                field: "now_millis",
                code: "observation_time_reversal",
                message: "comparison time cannot precede the observation time",
            },
        );
    }
    Ok(())
}

/// Observes the resources on the records that the four commands left, where
/// they left one.
pub fn observe_recorded_resources(
    memory_pressure: Option<ExecutionRecord>,
    swap: Option<ExecutionRecord>,
    power: Option<ExecutionRecord>,
    processes: Option<ExecutionRecord>,
    observed_at_millis: u64,
    now_millis: u64,
    freshness_window_millis: u64,
) -> (r: Result<MacOsResourceObservation, MacOsResourceObservationError>)
    ensures
        match r {
            Ok(observation) => {
                &&& refused_times(observed_at_millis, now_millis, freshness_window_millis) is None
                &&& observation@.evidence == (EvidenceView {
                    memory_pressure: outcome::option_view(memory_pressure),
                    swap: outcome::option_view(swap),
                    power: outcome::option_view(power),
                    processes: outcome::option_view(processes),
                })
                &&& is_report_of(
                    observation@.evidence,
                    observed_at_millis,
                    now_millis,
                    freshness_window_millis,
                    observation@.report,
                )
            },
            Err(e) => refused_times(observed_at_millis, now_millis, freshness_window_millis)
                == Some(e@),
        },
{
    check_times(observed_at_millis, now_millis, freshness_window_millis)?;
    Ok(
        observation_of(
            PrivateEvidence { memory_pressure, swap, power, processes },
            observed_at_millis,
            now_millis,
            freshness_window_millis,
        ),
    )
}

/// Observe bounded macOS host resource evidence without changing host or Lima state.
///
/// The caller supplies the observation completion time and comparison time so tests and future
/// status adapters do not depend on an ambient clock. Individual command failures are represented
/// as typed partial evidence rather than promoted to absence.
///
/// # Errors
///
/// Returns an error only when the supplied time boundary is invalid. Command, output, or parser
/// failures are retained as fixed public problem kinds with private raw evidence.
pub fn observe_macos_resources<E: CommandExecutor>(
    executor: &E,
    observed_at_millis: u64,
    now_millis: u64,
    freshness_window_millis: u64,
) -> (r: Result<MacOsResourceObservation, MacOsResourceObservationError>)
    ensures
        match r {
            Ok(observation) => {
                &&& refused_times(observed_at_millis, now_millis, freshness_window_millis) is None
                &&& is_evidence_from(*executor, observation@.evidence)
                &&& is_report_of(
                    observation@.evidence,
                    observed_at_millis,
                    now_millis,
                    freshness_window_millis,
                    observation@.report,
                )
            },
            Err(e) => refused_times(observed_at_millis, now_millis, freshness_window_millis)
                == Some(e@),
        },
{
    check_times(observed_at_millis, now_millis, freshness_window_millis)?;
    let memory_pressure = execute(executor, &memory_pressure_command());
    let swap = execute(executor, &swap_command());
    let power = execute(executor, &power_command());
    let processes = execute(executor, &lima_process_command());
    observe_recorded_resources(
        memory_pressure,
        swap,
        power,
        processes,
        observed_at_millis,
        now_millis,
        freshness_window_millis,
    )
}

/// The evidence and the times determine the report.
pub proof fn law_report_is_determined(
    evidence: EvidenceView,
    observed_at_millis: u64,
    now_millis: u64,
    freshness_window_millis: u64,
    first: ReportView,
    second: ReportView,
)
    requires
        is_report_of(
            evidence,
            observed_at_millis,
            now_millis,
            freshness_window_millis,
            first,
        ),
        is_report_of(
            evidence,
            observed_at_millis,
            now_millis,
            freshness_window_millis,
            second,
        ),
    ensures
        first == second,
{
    let a = choose|listing: Option<Seq<LimaProcessObservation>>| #[trigger]
        is_recorded_listing(evidence, listing) && first == resource_report(
            evidence,
            listing,
            observed_at_millis,
            now_millis,
            freshness_window_millis,
        );
    let b = choose|listing: Option<Seq<LimaProcessObservation>>| #[trigger]
        is_recorded_listing(evidence, listing) && second == resource_report(
            evidence,
            listing,
            observed_at_millis,
            now_millis,
            freshness_window_millis,
        );
    match recorded_table(lima_process_request(), evidence.processes) {
        Some(rows) => {
            lima_processes::law_lima_listing_is_unique(rows, a->0, b->0);
        },
        None => {},
    }
    assert(a == b);
}

/// A report is complete exactly when it names no problem; a stale one, or one
/// with anything unknown, is partial. It lists at most the public maximum of
/// processes, in the order of their pids.
pub proof fn law_unknown_is_never_complete(
    evidence: EvidenceView,
    observed_at_millis: u64,
    now_millis: u64,
    freshness_window_millis: u64,
    report: ReportView,
)
    requires
        is_report_of(
            evidence,
            observed_at_millis,
            now_millis,
            freshness_window_millis,
            report,
        ),
    ensures
        report.completeness == ObservationCompleteness::Complete <==> report.problems.len() == 0,
        report.completeness == ObservationCompleteness::Complete ==> {
            &&& report.freshness == ObservationFreshness::Fresh
            &&& report.memory_pressure != MemoryPressure::Unknown
            &&& report.swap is Some
            &&& report.power.source != HostPowerSource::Unknown
            &&& report.power.source == HostPowerSource::Battery ==> report.power.battery_percent
                is Some
            &&& recorded_table(lima_process_request(), evidence.processes) is Some
        },
        report.lima_processes.len() <= MAX_PUBLIC_LIMA_PROCESSES,
        forall|a: int, b: int|
            0 <= a < b < report.lima_processes.len() ==> (#[trigger] report.lima_processes[a]).pid
                < (#[trigger] report.lima_processes[b]).pid,
{
    let listing = choose|listing: Option<Seq<LimaProcessObservation>>| #[trigger]
        is_recorded_listing(evidence, listing) && report == resource_report(
            evidence,
            listing,
            observed_at_millis,
            now_millis,
            freshness_window_millis,
        );
    let processes = match listing {
        Some(all) => all,
        None => Seq::empty(),
    };
    assert forall|a: int, b: int| 0 <= a < b < report.lima_processes.len() implies (
    #[trigger] report.lima_processes[a]).pid < (#[trigger] report.lima_processes[b]).pid by {
        assert(report.lima_processes[a] == processes[a]);
        assert(report.lima_processes[b] == processes[b]);
    }
}

/// A record shows that the command ran well and said nothing but what it was
/// asked for, in so many bytes at most.
pub open spec fn shows_output(record: RecordView, argv: Seq<Seq<char>>, limit: nat) -> bool {
    &&& record.argv == argv
    &&& record.environment_keys.len() == 0
    &&& record.success
    &&& record.status == Some(0i32)
    &&& record.stderr.len() == 0
    &&& vstd::utf8::encode_utf8(record.stdout).len() <= limit
    &&& !record.stdout.contains('\0')
}

/// Nothing is read but what the fixed commands print when they run well: the
/// pressure level and the swap of the kernel, the power of the battery service,
/// and the process table, each within its bound.
pub proof fn law_readings_come_from_clean_records(evidence: EvidenceView)
    ensures
        memory_level(evidence) != MemoryPressure::Unknown ==> (
        evidence.memory_pressure matches Some(record) && shows_output(
            record,
            seq!["/usr/sbin/sysctl"@, "-n"@, "kern.memorystatus_vm_pressure_level"@],
            65_536,
        )),
        swap_use(evidence) is Some ==> (evidence.swap matches Some(record) && shows_output(
            record,
            seq!["/usr/sbin/sysctl"@, "-n"@, "vm.swapusage"@],
            65_536,
        )),
        power_state(evidence).source != HostPowerSource::Unknown ==> (
        evidence.power matches Some(record) && shows_output(
            record,
            seq!["/usr/bin/pmset"@, "-g"@, "batt"@],
            65_536,
        )),
        recorded_table(lima_process_request(), evidence.processes) is Some ==> (
        evidence.processes matches Some(record) && shows_output(
            record,
            seq!["/bin/ps"@, "-axo"@, "pid=,ppid=,%cpu=,rss=,etime=,comm="@],
            524_288,
        )),
{
    lemma_request_argv();
}

proof fn lemma_request_argv()
    ensures
        memory_pressure_request().argv() == seq![
            "/usr/sbin/sysctl"@,
            "-n"@,
            "kern.memorystatus_vm_pressure_level"@,
        ],
        swap_request().argv() == seq!["/usr/sbin/sysctl"@, "-n"@, "vm.swapusage"@],
        power_request().argv() == seq!["/usr/bin/pmset"@, "-g"@, "batt"@],
        lima_process_request().argv() == seq![
            "/bin/ps"@,
            "-axo"@,
            "pid=,ppid=,%cpu=,rss=,etime=,comm="@,
        ],
{
    assert(memory_pressure_request().argv() =~= seq![
        "/usr/sbin/sysctl"@,
        "-n"@,
        "kern.memorystatus_vm_pressure_level"@,
    ]);
    assert(swap_request().argv() =~= seq!["/usr/sbin/sysctl"@, "-n"@, "vm.swapusage"@]);
    assert(power_request().argv() =~= seq!["/usr/bin/pmset"@, "-g"@, "batt"@]);
    assert(lima_process_request().argv() =~= seq![
        "/bin/ps"@,
        "-axo"@,
        "pid=,ppid=,%cpu=,rss=,etime=,comm="@,
    ]);
}

/// What a clean record prints is what is read of it.
pub proof fn law_clean_records_are_read(evidence: EvidenceView, record: RecordView)
    ensures
        evidence.memory_pressure == Some(record) && shows_output(
            record,
            seq!["/usr/sbin/sysctl"@, "-n"@, "kern.memorystatus_vm_pressure_level"@],
            65_536,
        ) ==> (macos_readings::memory_pressure(record.stdout) matches Some(level) ==> memory_level(
            evidence,
        ) == level),
        evidence.swap == Some(record) && shows_output(
            record,
            seq!["/usr/sbin/sysctl"@, "-n"@, "vm.swapusage"@],
            65_536,
        ) ==> swap_use(evidence) == swap_reading(record.stdout),
        evidence.power == Some(record) && shows_output(
            record,
            seq!["/usr/bin/pmset"@, "-g"@, "batt"@],
            65_536,
        ) ==> (power_reading(record.stdout) matches Some(power) ==> power_state(evidence) == power),
        evidence.processes == Some(record) && shows_output(
            record,
            seq!["/bin/ps"@, "-axo"@, "pid=,ppid=,%cpu=,rss=,etime=,comm="@],
            524_288,
        ) ==> recorded_table(lima_process_request(), evidence.processes)
            == lima_processes::process_table(record.stdout),
{
    lemma_request_argv();
}

/// A swap reading adds up: what is used and what is free make the total, but
/// for the rounding of the printed quantities.
pub proof fn law_swap_adds_up(output: Seq<char>)
    ensures
        ({
            let total = macos_readings::named_quantity(output, "total"@);
            let used = macos_readings::named_quantity(output, "used"@);
            let free = macos_readings::named_quantity(output, "free"@);
            &&& swap_reading(output) is Some <==> {
                &&& total is Some && used is Some && free is Some
                &&& used->0 + free->0 < 0x1_0000_0000_0000_0000
                &&& total->0 <= used->0 + free->0 + 65_536
                &&& used->0 + free->0 <= total->0 + 65_536
            }
            &&& swap_reading(output) matches Some(swap) ==> {
                &&& swap.total_bytes == total->0
                &&& swap.used_bytes == used->0
                &&& swap.free_bytes == free->0
                &&& swap.encrypted == Some(true) <==> scan::contains_text(
                    scan::lowered(output),
                    "(encrypted)"@,
                )
                &&& swap.encrypted == Some(false) ==> scan::contains_text(
                    scan::lowered(output),
                    "(unencrypted)"@,
                )
                &&& swap.encrypted is None ==> !scan::contains_text(
                    scan::lowered(output),
                    "(unencrypted)"@,
                )
            }
        }),
{
}

/// Power is read off the first line that is not blank, and the charge of the
/// battery off the words between its semicolons.
pub proof fn law_power_is_read_off_its_words(output: Seq<char>)
    ensures
        ({
            let lines = scan::nonblank_lines(output);
            let lower = scan::lowered(output);
            &&& power_reading(output) is Some <==> lines.len() > 0
            &&& power_reading(output) matches Some(power) ==> {
                &&& power.source == HostPowerSource::Ac <==> scan::contains_text(
                    lines[0],
                    "'AC Power'"@,
                )
                &&& power.source == HostPowerSource::Battery ==> scan::contains_text(
                    lines[0],
                    "'Battery Power'"@,
                )
                &&& power.source == HostPowerSource::Unknown ==> !scan::contains_text(
                    lines[0],
                    "'Battery Power'"@,
                )
                &&& power.battery_percent == macos_readings::battery_percent(output)
                &&& power.charge_state == BatteryChargeState::Discharging <==> scan::contains_text(
                    lower,
                    "; discharging;"@,
                )
                &&& power.charge_state == BatteryChargeState::Charging ==> scan::contains_text(
                    lower,
                    "; charging;"@,
                ) || scan::contains_text(lower, "; finishing charge;"@)
                &&& power.charge_state == BatteryChargeState::Charged ==> scan::contains_text(
                    lower,
                    "; charged;"@,
                )
                &&& power.charge_state == BatteryChargeState::Unknown ==> {
                    &&& !scan::contains_text(lower, "; charging;"@)
                    &&& !scan::contains_text(lower, "; finishing charge;"@)
                    &&& !scan::contains_text(lower, "; charged;"@)
                }
            }
        }),
{
}

/// An observation is refused exactly when it has no time, no window, or lies in
/// the future.
pub proof fn law_times_are_in_order(
    observed_at_millis: u64,
    now_millis: u64,
    freshness_window_millis: u64,
)
    ensures
        refused_times(observed_at_millis, now_millis, freshness_window_millis) is None
            <==> observed_at_millis > 0 && freshness_window_millis > 0 && observed_at_millis
            <= now_millis,
{
}

/// A report tells what was read, is fresh exactly as long as its window lasts,
/// names every problem that there is and no other, and lists at most sixty-four
/// processes.
pub proof fn law_reports_tell_what_was_read(
    evidence: EvidenceView,
    listing: Option<Seq<LimaProcessObservation>>,
    observed_at_millis: u64,
    now_millis: u64,
    freshness_window_millis: u64,
)
    ensures
        ({
            let report = resource_report(
                evidence,
                listing,
                observed_at_millis,
                now_millis,
                freshness_window_millis,
            );
            let listed = listing->0.len();
            &&& report.schema_version == 1
            &&& report.observed_at_millis == observed_at_millis
            &&& report.freshness == ObservationFreshness::Fresh <==> now_millis
                <= observed_at_millis + freshness_window_millis
            &&& report.memory_pressure == memory_level(evidence)
            &&& report.swap == swap_use(evidence)
            &&& report.power == power_state(evidence)
            &&& listing is None ==> report.lima_processes.len() == 0
            &&& listing is Some && listed <= 64 ==> report.lima_processes == listing->0
            &&& listing is Some && listed > 64 ==> report.lima_processes == listing->0.take(64)
            &&& report.problems.contains(MacOsResourceProblemKind::StaleObservation)
                <==> report.freshness == ObservationFreshness::Stale
            &&& report.problems.contains(MacOsResourceProblemKind::MemoryPressureUnavailable)
                <==> report.memory_pressure == MemoryPressure::Unknown
            &&& report.problems.contains(MacOsResourceProblemKind::SwapUnavailable)
                <==> report.swap is None
            &&& report.problems.contains(MacOsResourceProblemKind::PowerUnavailable)
                <==> report.power.source == HostPowerSource::Unknown
            &&& report.problems.contains(MacOsResourceProblemKind::BatteryDetailsUnavailable)
                <==> report.power.source == HostPowerSource::Battery
                && report.power.battery_percent is None
            &&& report.problems.contains(
                MacOsResourceProblemKind::LimaProcessObservationUnavailable,
            ) <==> listing is None
            &&& report.problems.contains(MacOsResourceProblemKind::LimaProcessListTruncated)
                <==> listing is Some && listed > 64
        }),
{
    let power = power_state(evidence);
    let stale = now_millis - observed_at_millis > freshness_window_millis;
    let processes = match listing {
        Some(all) => all,
        None => Seq::empty(),
    };
    let p1 = problem_if(stale, MacOsResourceProblemKind::StaleObservation);
    let a2 = memory_level(evidence) == MemoryPressure::Unknown;
    let p2 = p1 + problem_if(a2, MacOsResourceProblemKind::MemoryPressureUnavailable);
    let a3 = swap_use(evidence) is None;
    let p3 = p2 + problem_if(a3, MacOsResourceProblemKind::SwapUnavailable);
    let a4 = power.source == HostPowerSource::Unknown;
    let p4 = p3 + problem_if(a4, MacOsResourceProblemKind::PowerUnavailable);
    let a5 = power.source == HostPowerSource::Battery && power.battery_percent is None;
    let p5 = p4 + problem_if(a5, MacOsResourceProblemKind::BatteryDetailsUnavailable);
    let a6 = listing is None;
    let p6 = p5 + problem_if(a6, MacOsResourceProblemKind::LimaProcessObservationUnavailable);
    let a7 = processes.len() > 64;
    let p7 = p6 + problem_if(a7, MacOsResourceProblemKind::LimaProcessListTruncated);
    let none = Seq::<MacOsResourceProblemKind>::empty();
    assert(none + p1 =~= p1);
    lemma_problem_step(none, stale, MacOsResourceProblemKind::StaleObservation, p1);
    lemma_problem_step(p1, a2, MacOsResourceProblemKind::MemoryPressureUnavailable, p2);
    lemma_problem_step(p2, a3, MacOsResourceProblemKind::SwapUnavailable, p3);
    lemma_problem_step(p3, a4, MacOsResourceProblemKind::PowerUnavailable, p4);
    lemma_problem_step(p4, a5, MacOsResourceProblemKind::BatteryDetailsUnavailable, p5);
    lemma_problem_step(p5, a6, MacOsResourceProblemKind::LimaProcessObservationUnavailable, p6);
    lemma_problem_step(p6, a7, MacOsResourceProblemKind::LimaProcessListTruncated, p7);
    assert(resource_report(
        evidence,
        listing,
        observed_at_millis,
        now_millis,
        freshness_window_millis,
    ).problems == p7);
}

proof fn lemma_problem_step(
    before: Seq<MacOsResourceProblemKind>,
    applies: bool,
    kind: MacOsResourceProblemKind,
    after: Seq<MacOsResourceProblemKind>,
)
    requires
        after == before + problem_if(applies, kind),
    ensures
        forall|other: MacOsResourceProblemKind|
            after.contains(other) <==> before.contains(other) || (applies && kind == other),
{
    assert forall|other: MacOsResourceProblemKind|
        after.contains(other) <==> before.contains(other) || (applies && kind == other) by {
        if before.contains(other) {
            let i = choose|i: int| 0 <= i < before.len() && before[i] == other;
            assert(after[i] == other);
        }
        if applies {
            assert(after[before.len() as int] == kind);
        }
        if after.contains(other) {
            let i = choose|i: int| 0 <= i < after.len() && after[i] == other;
            if i < before.len() {
                assert(before[i] == other);
            }
        }
    }
}

} // verus!
