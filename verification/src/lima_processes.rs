//! Selecting the Lima processes of a host from a process listing.
use vstd::prelude::*;

use crate::macos_readings;
use crate::outcome;
use crate::scan;
use crate::text;

verus! {

pub const MAX_PROCESS_ROWS: usize = 4_096;

pub const MAX_CPU_BASIS_POINTS: u64 = 10_000_000;

pub const MAX_RSS_KIB: u64 = 1_099_511_627_776;

#[derive(Debug, Clone, Copy, PartialEq, Eq, Structural)]
pub enum LimaProcessRole {
    Controller,
    HostAgent,
    VirtualMachine,
    Network,
    FileSharing,
    Auxiliary,
}

#[derive(Debug, Clone, Copy, PartialEq, Eq, Structural)]
pub struct LimaProcessObservation {
    pub pid: u32,
    pub parent_pid: u32,
    pub role: LimaProcessRole,
    pub cpu_basis_points: u32,
    pub rss_bytes: u64,
    pub elapsed_seconds: u64,
}

/// One row of the process listing.
pub struct ParsedProcess {
    pub pid: u32,
    pub parent_pid: u32,
    pub cpu_basis_points: u32,
    pub rss_bytes: u64,
    pub elapsed_seconds: u64,
    pub command: Vec<char>,
}

pub struct ProcessView {
    pub pid: u32,
    pub parent_pid: u32,
    pub cpu_basis_points: u32,
    pub rss_bytes: u64,
    pub elapsed_seconds: u64,
    pub command: Seq<char>,
}

impl View for ParsedProcess {
    type V = ProcessView;

    open spec fn view(&self) -> ProcessView {
        ProcessView {
            pid: self.pid,
            parent_pid: self.parent_pid,
            cpu_basis_points: self.cpu_basis_points,
            rss_bytes: self.rss_bytes,
            elapsed_seconds: self.elapsed_seconds,
            command: self.command@,
        }
    }
}

/// The `n`th white-space delimited field of a line, with what follows it.
pub open spec fn field(line: Seq<char>, n: nat) -> Option<(Seq<char>, Seq<char>)>
    decreases n,
{
    if n == 0 {
        scan::next_field(line)
    } else {
        match field(line, (n - 1) as nat) {
            Some(before) => scan::next_field(before.1),
            None => None,
        }
    }
}

/// The row that a line prints: process, parent, processor use in percent,
/// resident size in KiB, elapsed time, and the command that fills the rest.
pub open spec fn process_row(line: Seq<char>) -> Option<ProcessView> {
    match (field(line, 0), field(line, 1), field(line, 2), field(line, 3), field(line, 4)) {
        (Some(pid), Some(parent), Some(cpu), Some(rss), Some(elapsed)) => {
            let command = scan::trimmed(elapsed.1);
            match (
                text::parsed_number(pid.0, u32::MAX as nat),
                text::parsed_number(parent.0, u32::MAX as nat),
                macos_readings::decimal_scaled(cpu.0, 100),
                text::parsed_number(rss.0, u64::MAX as nat),
                macos_readings::elapsed_seconds(elapsed.0),
            ) {
                (Some(p), Some(q), Some(points), Some(kib), Some(seconds)) => if points
                    <= MAX_CPU_BASIS_POINTS && kib <= MAX_RSS_KIB && p != 0 && command.len() > 0
                    && !command.contains('\0') {
                    Some(
                        ProcessView {
                            pid: p as u32,
                            parent_pid: q as u32,
                            cpu_basis_points: points as u32,
                            rss_bytes: (kib * 1024) as u64,
                            elapsed_seconds: seconds,
                            command,
                        },
                    )
                } else {
                    None
                },
                _ => None,
            }
        },
        _ => None,
    }
}

fn has_nul(chars: &[char]) -> (r: bool)
    ensures
        r == chars@.contains('\0'),
{
    let at = scan::position_of(chars, '\0');
    proof {
        scan::lemma_first_position_found(chars@, '\0');
    }
    assert(at < chars@.len() ==> chars@[at as int] == '\0');
    at < chars.len()
}

impl ParsedProcess {
    /// Reads one row of the process listing.
    pub fn parse(line: &[char]) -> (row: Option<ParsedProcess>)
        ensures
            outcome::option_view(row) == process_row(line@),
    {
        proof {
            reveal_with_fuel(field, 6);
        }
        let pid_field = match scan::take_field(line) {
            Some(found) => found,
            None => {
                return None;
            },
        };
        let parent_field = match scan::take_field(pid_field.1) {
            Some(found) => found,
            None => {
                return None;
            },
        };
        let cpu_field = match scan::take_field(parent_field.1) {
            Some(found) => found,
            None => {
                return None;
            },
        };
        let rss_field = match scan::take_field(cpu_field.1) {
            Some(found) => found,
            None => {
                return None;
            },
        };
        let elapsed_field = match scan::take_field(rss_field.1) {
            Some(found) => found,
            None => {
                return None;
            },
        };
        let pid = match text::parse_number(pid_field.0, u32::MAX as u64) {
            Some(pid) => pid,
            None => {
                return None;
            },
        };
        let parent_pid = match text::parse_number(parent_field.0, u32::MAX as u64) {
            Some(parent_pid) => parent_pid,
            None => {
                return None;
            },
        };
        let cpu_basis_points = match macos_readings::parse_decimal_scaled(cpu_field.0, 100) {
            Some(points) => points,
            None => {
                return None;
            },
        };
        let rss_kib = match text::parse_number(rss_field.0, u64::MAX) {
            Some(rss_kib) => rss_kib,
            None => {
                return None;
            },
        };
        let elapsed_seconds = match macos_readings::elapsed_of(elapsed_field.0) {
            Some(elapsed_seconds) => elapsed_seconds,
            None => {
                return None;
            },
        };
        let command = scan::trim(elapsed_field.1);
        if cpu_basis_points > MAX_CPU_BASIS_POINTS || rss_kib > MAX_RSS_KIB || pid == 0
            || command.len() == 0 || has_nul(command) {
            return None;
        }
        Some(
            ParsedProcess {
                pid: pid as u32,
                parent_pid: parent_pid as u32,
                cpu_basis_points: cpu_basis_points as u32,
                rss_bytes: rss_kib * 1_024,
                elapsed_seconds,
                command: vstd::slice::slice_to_vec(command),
            },
        )
    }
}

/// What follows the last slash of a command, in lower case.
pub open spec fn basename(command: Seq<char>) -> Seq<char> {
    scan::lowered(scan::split_on(command, '/').last())
}

/// A process that Lima itself starts everything else from.
pub open spec fn root_role(command: Seq<char>) -> Option<LimaProcessRole> {
    if basename(command) == "limactl"@ {
        Some(LimaProcessRole::Controller)
    } else if basename(command) == "lima"@ || text::has_prefix(basename(command), "lima-"@) {
        Some(LimaProcessRole::HostAgent)
    } else {
        None
    }
}

pub open spec fn process_role(command: Seq<char>) -> LimaProcessRole {
    let name = basename(command);
    match root_role(command) {
        Some(role) => role,
        None => if name == "vfkit"@ || text::has_prefix(name, "qemu-system-"@) || name
            == "virtualization.virtualmachine"@ {
            LimaProcessRole::VirtualMachine
        } else if name == "socket_vmnet"@ || name == "vde_switch"@ {
            LimaProcessRole::Network
        } else if name == "virtiofsd"@ {
            LimaProcessRole::FileSharing
        } else {
            LimaProcessRole::Auxiliary
        },
    }
}

fn basename_of(command: &[char]) -> (name: Vec<char>)
    ensures
        name@ == basename(command@),
{
    let pieces = scan::split(command, '/');
    let last = pieces.len() - 1;
    assert(pieces@[last as int]@ == scan::split_on(command@, '/').last());
    scan::to_lower(pieces[last].as_slice())
}

fn root_role_of(command: &[char]) -> (role: Option<LimaProcessRole>)
    ensures
        role == root_role(command@),
{
    let name = basename_of(command);
    if scan::is_text(name.as_slice(), "limactl") {
        Some(LimaProcessRole::Controller)
    } else if scan::is_text(name.as_slice(), "lima") || text::starts_with(
        name.as_slice(),
        "lima-",
    ) {
        Some(LimaProcessRole::HostAgent)
    } else {
        None
    }
}

fn process_role_of(command: &[char]) -> (role: LimaProcessRole)
    ensures
        role == process_role(command@),
{
    if let Some(role) = root_role_of(command) {
        return role;
    }
    let name = basename_of(command);
    if scan::is_text(name.as_slice(), "vfkit") || text::starts_with(
        name.as_slice(),
        "qemu-system-",
    ) || scan::is_text(name.as_slice(), "virtualization.virtualmachine") {
        LimaProcessRole::VirtualMachine
    } else if scan::is_text(name.as_slice(), "socket_vmnet") || scan::is_text(
        name.as_slice(),
        "vde_switch",
    ) {
        LimaProcessRole::Network
    } else if scan::is_text(name.as_slice(), "virtiofsd") {
        LimaProcessRole::FileSharing
    } else {
        LimaProcessRole::Auxiliary
    }
}

/// What a row tells the public about its process.
pub open spec fn observed(row: ProcessView) -> LimaProcessObservation {
    LimaProcessObservation {
        pid: row.pid,
        parent_pid: row.parent_pid,
        role: process_role(row.command),
        cpu_basis_points: row.cpu_basis_points,
        rss_bytes: row.rss_bytes,
        elapsed_seconds: row.elapsed_seconds,
    }
}

/// The rows that nonblank lines print, if each prints one.
pub open spec fn process_rows(lines: Seq<Seq<char>>) -> Option<Seq<ProcessView>>
    decreases lines.len(),
{
    if lines.len() == 0 {
        Some(Seq::empty())
    } else {
        match (process_rows(lines.drop_last()), process_row(lines.last())) {
            (Some(rows), Some(row)) => Some(rows.push(row)),
            _ => None,
        }
    }
}

pub open spec fn distinct_pids(rows: Seq<ProcessView>) -> bool {
    forall|i: int, j: int|
        0 <= i < j < rows.len() ==> (#[trigger] rows[i]).pid != (#[trigger] rows[j]).pid
}

/// The process table that the output of the listing command holds.
pub open spec fn process_table(output: Seq<char>) -> Option<Seq<ProcessView>> {
    let lines = scan::nonblank_lines(output);
    if lines.len() > MAX_PROCESS_ROWS {
        None
    } else {
        match process_rows(lines) {
            Some(rows) => if distinct_pids(rows) {
                Some(rows)
            } else {
                None
            },
            None => None,
        }
    }
}

/// Row `j` is the parent of row `i`.
pub open spec fn is_parent(rows: Seq<ProcessView>, j: int, i: int) -> bool {
    0 <= j < rows.len() && rows[j].pid == rows[i].parent_pid
}

/// At most `steps` parents lead from row `i` to a row that is a Lima root.
pub open spec fn reaches_root(rows: Seq<ProcessView>, i: int, steps: nat) -> bool
    decreases steps,
{
    root_role(rows[i].command) is Some || (steps > 0 && exists|j: int| #[trigger]
        is_parent(rows, j, i) && reaches_root(rows, j, (steps - 1) as nat))
}

/// Row `i` is a Lima root or descends from one.
pub open spec fn is_lima(rows: Seq<ProcessView>, i: int) -> bool {
    0 <= i < rows.len() && exists|steps: nat| reaches_root(rows, i, steps)
}

/// Some Lima process of the table shows as this.
pub open spec fn shows_lima(rows: Seq<ProcessView>, shown: LimaProcessObservation) -> bool {
    exists|i: int| #[trigger] is_lima(rows, i) && shown == observed(rows[i])
}

/// The Lima processes of the table in the order of their pids.
pub open spec fn is_lima_listing(
    rows: Seq<ProcessView>,
    listing: Seq<LimaProcessObservation>,
) -> bool {
    &&& forall|a: int, b: int|
        0 <= a < b < listing.len() ==> (#[trigger] listing[a]).pid < (#[trigger] listing[b]).pid
    &&& forall|a: int| 0 <= a < listing.len() ==> shows_lima(rows, #[trigger] listing[a])
    &&& forall|i: int| #[trigger] is_lima(rows, i) ==> listing.contains(observed(rows[i]))
}

/// Reads the rows of the nonblank lines.
fn parse_rows(lines: &Vec<Vec<char>>) -> (rows: Option<Vec<ParsedProcess>>)
    ensures
        match rows {
            Some(table) => process_rows(outcome::seq_view(lines@)) == Some(
                outcome::seq_view(table@),
            ) && table@.len() == lines@.len(),
            None => process_rows(outcome::seq_view(lines@)) is None,
        },
{
    let ghost all = outcome::seq_view(lines@);
    let mut rows: Vec<ParsedProcess> = Vec::new();
    let mut i: usize = 0;
    assert(all.take(0) =~= Seq::empty());
    assert(outcome::seq_view(rows@) =~= Seq::empty());
    while i < lines.len()
        invariant
            i <= lines@.len(),
            all == outcome::seq_view(lines@),
            rows@.len() == i,
            process_rows(all.take(i as int)) == Some(outcome::seq_view(rows@)),
        decreases lines@.len() - i,
    {
        assert(all.take(i as int + 1).drop_last() =~= all.take(i as int));
        assert(all.take(i as int + 1).last() == lines@[i as int]@);
        let ghost before = outcome::seq_view(rows@);
        match ParsedProcess::parse(lines[i].as_slice()) {
            Some(row) => {
                rows.push(row);
                assert(outcome::seq_view(rows@) =~= before.push(row@));
            },
            None => {
                proof {
                    lemma_unreadable_row(all, i as int);
                }
                return None;
            },
        }
        i += 1;
    }
    assert(all.take(i as int) =~= all);
    Some(rows)
}

proof fn lemma_unreadable_row(lines: Seq<Seq<char>>, at: int)
    requires
        0 <= at < lines.len(),
        process_row(lines[at]) is None,
    ensures
        process_rows(lines) is None,
    decreases lines.len(),
{
    if at < lines.len() - 1 {
        lemma_unreadable_row(lines.drop_last(), at);
    }
}

fn pids_differ(rows: &Vec<ParsedProcess>) -> (r: bool)
    ensures
        r == distinct_pids(outcome::seq_view(rows@)),
{
    let ghost all = outcome::seq_view(rows@);
    let mut j: usize = 0;
    while j < rows.len()
        invariant
            j <= rows@.len(),
            all == outcome::seq_view(rows@),
            forall|a: int, b: int|
                0 <= a < b < j ==> (#[trigger] all[a]).pid != (#[trigger] all[b]).pid,
        decreases rows@.len() - j,
    {
        let mut i: usize = 0;
        while i < j
            invariant
                i <= j < rows@.len(),
                all == outcome::seq_view(rows@),
                forall|a: int| 0 <= a < i ==> (#[trigger] all[a]).pid != all[j as int].pid,
            decreases j - i,
        {
            if rows[i].pid == rows[j].pid {
                assert(all[i as int].pid == all[j as int].pid);
                return false;
            }
            i += 1;
        }
        j += 1;
    }
    true
}

/// The process that a row marked true has been shown to be.
spec fn justified(rows: Seq<ProcessView>, marked: Seq<bool>) -> bool {
    &&& marked.len() == rows.len()
    &&& forall|i: int| 0 <= i < rows.len() && #[trigger] marked[i] ==> is_lima(rows, i)
    &&& forall|i: int|
        0 <= i < rows.len() && root_role(rows[i].command) is Some ==> #[trigger] marked[i]
}

spec fn count_marked(marked: Seq<bool>) -> nat
    decreases marked.len(),
{
    if marked.len() == 0 {
        0
    } else {
        count_marked(marked.drop_last()) + if marked.last() {
            1nat
        } else {
            0
        }
    }
}

proof fn lemma_count_bounded(marked: Seq<bool>)
    ensures
        count_marked(marked) <= marked.len(),
    decreases marked.len(),
{
    if marked.len() > 0 {
        lemma_count_bounded(marked.drop_last());
    }
}

proof fn lemma_marking_counts(marked: Seq<bool>, at: int)
    requires
        0 <= at < marked.len(),
        !marked[at],
    ensures
        count_marked(marked.update(at, true)) == count_marked(marked) + 1,
    decreases marked.len(),
{
    let after = marked.update(at, true);
    if at < marked.len() - 1 {
        assert(after.drop_last() =~= marked.drop_last().update(at, true));
        lemma_marking_counts(marked.drop_last(), at);
    } else {
        assert(after.drop_last() =~= marked.drop_last());
    }
}

/// When no row with a marked parent is unmarked, every Lima process is marked.
proof fn lemma_closed_marks_reach(
    rows: Seq<ProcessView>,
    marked: Seq<bool>,
    i: int,
    steps: nat,
)
    requires
        justified(rows, marked),
        forall|a: int, b: int|
            0 <= a < rows.len() && 0 <= b < rows.len() && rows[b].pid == rows[a].parent_pid
                && #[trigger] marked[b] ==> #[trigger] marked[a],
        0 <= i < rows.len(),
        reaches_root(rows, i, steps),
    ensures
        marked[i],
    decreases steps,
{
    if root_role(rows[i].command) is None {
        let j = choose|j: int| #[trigger]
            is_parent(rows, j, i) && reaches_root(rows, j, (steps - 1) as nat);
        lemma_closed_marks_reach(rows, marked, j, (steps - 1) as nat);
    }
}

/// Marks the children of marked rows once, and says whether any was new.
fn mark_children(rows: &Vec<ParsedProcess>, marked: &mut Vec<bool>) -> (grew: bool)
    requires
        justified(outcome::seq_view(rows@), old(marked)@),
    ensures
        justified(outcome::seq_view(rows@), final(marked)@),
        grew ==> count_marked(final(marked)@) > count_marked(old(marked)@),
        !grew ==> final(marked)@ == old(marked)@ && forall|a: int, b: int|
            0 <= a < rows@.len() && 0 <= b < rows@.len() && rows@[b].pid == rows@[a].parent_pid
                && #[trigger] final(marked)@[b] ==> #[trigger] final(marked)@[a],
{
    let ghost all = outcome::seq_view(rows@);
    let ghost start = marked@;
    let mut grew = false;
    let mut i: usize = 0;
    while i < rows.len()
        invariant
            i <= rows@.len(),
            all == outcome::seq_view(rows@),
            justified(all, marked@),
            grew ==> count_marked(marked@) > count_marked(start),
            !grew ==> marked@ == start,
            !grew ==> forall|a: int, b: int|
                0 <= a < i && 0 <= b < rows@.len() && rows@[b].pid == rows@[a].parent_pid
                    && #[trigger] marked@[b] ==> #[trigger] marked@[a],
        decreases rows@.len() - i,
    {
        let mut j: usize = 0;
        let mut child = false;
        while j < rows.len()
            invariant
                j <= rows@.len(),
                i < rows@.len(),
                all == outcome::seq_view(rows@),
                marked@.len() == rows@.len(),
                child ==> exists|b: int|
                    0 <= b < rows@.len() && rows@[b].pid == rows@[i as int].parent_pid
                        && #[trigger] marked@[b],
                !child ==> forall|b: int|
                    0 <= b < j && rows@[b].pid == rows@[i as int].parent_pid
                        ==> !#[trigger] marked@[b],
            decreases rows@.len() - j,
        {
            if marked[j] && rows[j].pid == rows[i].parent_pid {
                assert(marked@[j as int]);
                child = true;
            }
            j += 1;
        }
        if child && !marked[i] {
            proof {
                let b = choose|b: int|
                    0 <= b < rows@.len() && rows@[b].pid == rows@[i as int].parent_pid
                        && #[trigger] marked@[b];
                assert(is_lima(all, b));
                let steps = choose|steps: nat| reaches_root(all, b, steps);
                assert(is_parent(all, b, i as int));
                assert(reaches_root(all, i as int, steps + 1));
                assert(is_lima(all, i as int));
                lemma_marking_counts(marked@, i as int);
            }
            let ghost before = marked@;
            marked.set(i, true);
            assert(justified(all, marked@)) by {
                assert forall|k: int| 0 <= k < all.len() && #[trigger] marked@[k] implies is_lima(
                    all,
                    k,
                ) by {
                    if k != i {
                        assert(before[k]);
                    }
                }
                assert forall|k: int|
                    0 <= k < all.len() && root_role(
                        all[k].command,
                    ) is Some implies #[trigger] marked@[k] by {
                    assert(before[k]);
                }
            }
            grew = true;
        }
        i += 1;
    }
    grew
}

/// Marks the rows that are Lima processes.
fn mark_lima(rows: &Vec<ParsedProcess>) -> (marked: Vec<bool>)
    ensures
        marked@.len() == rows@.len(),
        forall|i: int|
            0 <= i < rows@.len() ==> (#[trigger] marked@[i] <==> is_lima(
                outcome::seq_view(rows@),
                i,
            )),
{
    let ghost all = outcome::seq_view(rows@);
    let mut marked: Vec<bool> = Vec::new();
    let mut i: usize = 0;
    while i < rows.len()
        invariant
            i <= rows@.len(),
            marked@.len() == i,
            all == outcome::seq_view(rows@),
            forall|k: int|
                0 <= k < i ==> #[trigger] marked@[k] == (root_role(all[k].command) is Some),
        decreases rows@.len() - i,
    {
        assert(all[i as int].command == rows@[i as int].command@);
        marked.push(root_role_of(rows[i].command.as_slice()).is_some());
        i += 1;
    }
    assert(justified(all, marked@)) by {
        assert forall|k: int| 0 <= k < all.len() && #[trigger] marked@[k] implies is_lima(
            all,
            k,
        ) by {
            assert(reaches_root(all, k, 0));
        }
    }
    loop
        invariant
            all == outcome::seq_view(rows@),
            justified(all, marked@),
        ensures
            justified(all, marked@),
            forall|a: int, b: int|
                0 <= a < all.len() && 0 <= b < all.len() && all[b].pid == all[a].parent_pid
                    && #[trigger] marked@[b] ==> #[trigger] marked@[a],
        decreases rows@.len() - count_marked(marked@),
    {
        let grew = mark_children(rows, &mut marked);
        proof {
            lemma_count_bounded(marked@);
        }
        if !grew {
            assert forall|a: int, b: int|
                0 <= a < all.len() && 0 <= b < all.len() && all[b].pid == all[a].parent_pid
                    && #[trigger] marked@[b] implies #[trigger] marked@[a] by {
                assert(rows@[b].pid == rows@[a].parent_pid);
            }
            break;
        }
    }
    assert forall|k: int| 0 <= k < all.len() && is_lima(all, k) implies #[trigger] marked@[k] by {
        let steps = choose|steps: nat| reaches_root(all, k, steps);
        lemma_closed_marks_reach(all, marked@, k, steps);
    }
    marked
}

/// Puts an observation where its pid belongs.
fn insert_by_pid(
    listing: &mut Vec<LimaProcessObservation>,
    observation: LimaProcessObservation,
)
    requires
        forall|a: int, b: int|
            0 <= a < b < old(listing)@.len() ==> (#[trigger] old(listing)@[a]).pid < (
            #[trigger] old(listing)@[b]).pid,
        forall|a: int|
            0 <= a < old(listing)@.len() ==> (#[trigger] old(listing)@[a]).pid != observation.pid,
    ensures
        forall|a: int, b: int|
            0 <= a < b < final(listing)@.len() ==> (#[trigger] final(listing)@[a]).pid < (
            #[trigger] final(listing)@[b]).pid,
        forall|o: LimaProcessObservation| #[trigger]
            final(listing)@.contains(o) <==> old(listing)@.contains(o) || o == observation,
{
    let ghost before = listing@;
    let mut at: usize = 0;
    while at < listing.len() && listing[at].pid < observation.pid
        invariant
            at <= listing@.len(),
            listing@ == before,
            forall|k: int| 0 <= k < at ==> (#[trigger] before[k]).pid < observation.pid,
        decreases listing@.len() - at,
    {
        at += 1;
    }
    assert forall|k: int| at <= k < before.len() implies (#[trigger] before[k]).pid
        > observation.pid by {
        if k > at {
            assert(before[at as int].pid < before[k].pid);
        }
    }
    listing.insert(at, observation);
    assert forall|o: LimaProcessObservation| #[trigger] listing@.contains(o) <==> before.contains(o)
        || o == observation by {
        if listing@.contains(o) {
            let k = choose|k: int| 0 <= k < listing@.len() && listing@[k] == o;
            if k < at {
                assert(before[k] == o);
            } else if k > at {
                assert(before[k - 1] == o);
            }
        }
        if before.contains(o) {
            let k = choose|k: int| 0 <= k < before.len() && before[k] == o;
            if k < at {
                assert(listing@[k] == o);
            } else {
                assert(listing@[k + 1] == o);
            }
        }
        assert(listing@[at as int] == observation);
    }
}

/// Reads the process listing and selects the Lima processes in the order of
/// their pids.
pub fn lima_listing(output: &str) -> (listing: Option<Vec<LimaProcessObservation>>)
    ensures
        match listing {
            Some(processes) => match process_table(output@) {
                Some(rows) => is_lima_listing(rows, processes@),
                None => false,
            },
            None => process_table(output@) is None,
        },
{
    let chars = text::chars_of(output);
    let lines = scan::lines_of(chars.as_slice());
    if lines.len() > MAX_PROCESS_ROWS {
        return None;
    }
    let rows = match parse_rows(&lines) {
        Some(rows) => rows,
        None => {
            return None;
        },
    };
    if !pids_differ(&rows) {
        return None;
    }
    let ghost all = outcome::seq_view(rows@);
    let marked = mark_lima(&rows);
    let mut listing: Vec<LimaProcessObservation> = Vec::new();
    let mut i: usize = 0;
    while i < rows.len()
        invariant
            i <= rows@.len(),
            all == outcome::seq_view(rows@),
            distinct_pids(all),
            marked@.len() == rows@.len(),
            forall|k: int| 0 <= k < rows@.len() ==> (#[trigger] marked@[k] <==> is_lima(all, k)),
            forall|a: int, b: int|
                0 <= a < b < listing@.len() ==> (#[trigger] listing@[a]).pid < (
                #[trigger] listing@[b]).pid,
            forall|o: LimaProcessObservation| #[trigger]
                listing@.contains(o) ==> exists|k: int|
                    0 <= k < i && #[trigger] is_lima(all, k) && o == observed(all[k]),
            forall|k: int|
                0 <= k < i && #[trigger] is_lima(all, k) ==> listing@.contains(observed(all[k])),
        decreases rows@.len() - i,
    {
        let ghost before = listing@;
        if marked[i] {
            let observation = LimaProcessObservation {
                pid: rows[i].pid,
                parent_pid: rows[i].parent_pid,
                role: process_role_of(rows[i].command.as_slice()),
                cpu_basis_points: rows[i].cpu_basis_points,
                rss_bytes: rows[i].rss_bytes,
                elapsed_seconds: rows[i].elapsed_seconds,
            };
            assert(all[i as int] == rows@[i as int]@);
            assert(observation == observed(all[i as int]));
            assert forall|a: int| 0 <= a < before.len() implies (#[trigger] before[a]).pid
                != observation.pid by {
                assert(before.contains(before[a]));
                let k = choose|k: int|
                    0 <= k < i && #[trigger] is_lima(all, k) && before[a] == observed(all[k]);
                assert(all[k].pid != all[i as int].pid);
            }
            insert_by_pid(&mut listing, observation);
            assert forall|k: int| 0 <= k < i + 1 && #[trigger] is_lima(
                all,
                k,
            ) implies listing@.contains(observed(all[k])) by {
                if k < i {
                    assert(before.contains(observed(all[k])));
                }
            }
            assert forall|o: LimaProcessObservation| #[trigger]
                listing@.contains(o) implies exists|k: int|
                0 <= k < i + 1 && #[trigger] is_lima(all, k) && o == observed(all[k]) by {
                if before.contains(o) {
                    let k = choose|k: int|
                        0 <= k < i && #[trigger] is_lima(all, k) && o == observed(all[k]);
                    assert(is_lima(all, k));
                } else {
                    assert(is_lima(all, i as int));
                }
            }
        }
        i += 1;
    }
    proof {
        assert forall|a: int| 0 <= a < listing@.len() implies shows_lima(
            all,
            #[trigger] listing@[a],
        ) by {
            assert(listing@.contains(listing@[a]));
        }
        assert forall|k: int| #[trigger] is_lima(all, k) implies listing@.contains(
            observed(all[k]),
        ) by {}
        assert(is_lima_listing(all, listing@));
    }
    Some(listing)
}

/// The Lima listing of a process table is determined by the table.
pub proof fn law_lima_listing_is_unique(
    rows: Seq<ProcessView>,
    first: Seq<LimaProcessObservation>,
    second: Seq<LimaProcessObservation>,
)
    requires
        is_lima_listing(rows, first),
        is_lima_listing(rows, second),
    ensures
        first == second,
{
    lemma_same_elements(rows, first, second);
    lemma_same_elements(rows, second, first);
    lemma_sorted_listings_agree(first, second);
}

proof fn lemma_same_elements(
    rows: Seq<ProcessView>,
    first: Seq<LimaProcessObservation>,
    second: Seq<LimaProcessObservation>,
)
    requires
        is_lima_listing(rows, first),
        is_lima_listing(rows, second),
    ensures
        forall|a: int| 0 <= a < first.len() ==> second.contains(#[trigger] first[a]),
{
    assert forall|a: int| 0 <= a < first.len() implies second.contains(#[trigger] first[a]) by {
        assert(shows_lima(rows, first[a]));
        let i = choose|i: int| #[trigger] is_lima(rows, i) && first[a] == observed(rows[i]);
        assert(is_lima(rows, i));
    }
}

proof fn lemma_sorted_listings_agree(
    first: Seq<LimaProcessObservation>,
    second: Seq<LimaProcessObservation>,
)
    requires
        forall|a: int, b: int|
            0 <= a < b < first.len() ==> (#[trigger] first[a]).pid < (#[trigger] first[b]).pid,
        forall|a: int, b: int|
            0 <= a < b < second.len() ==> (#[trigger] second[a]).pid < (#[trigger] second[b]).pid,
        forall|a: int| 0 <= a < first.len() ==> second.contains(#[trigger] first[a]),
        forall|a: int| 0 <= a < second.len() ==> first.contains(#[trigger] second[a]),
    ensures
        first == second,
    decreases first.len(),
{
    if first.len() == 0 {
        if second.len() > 0 {
            assert(first.contains(second[0]));
        }
        assert(first =~= second);
    } else if second.len() == 0 {
        assert(second.contains(first[0]));
    } else {
        let last = first.last();
        let other = second.last();
        assert(second.contains(first[first.len() - 1]));
        assert(first.contains(second[second.len() - 1]));
        let k = choose|k: int| 0 <= k < second.len() && second[k] == last;
        let m = choose|m: int| 0 <= m < first.len() && first[m] == other;
        assert(k == second.len() - 1) by {
            if k < second.len() - 1 {
                assert(second[k].pid < second[second.len() - 1].pid);
                if m < first.len() - 1 {
                    assert(first[m].pid < first[first.len() - 1].pid);
                }
            }
        }
        assert(last == other);
        assert forall|a: int| 0 <= a < first.drop_last().len() implies second.drop_last().contains(
            #[trigger] first.drop_last()[a],
        ) by {
            assert(second.contains(first[a]));
            let c = choose|c: int| 0 <= c < second.len() && second[c] == first[a];
            assert(first[a].pid < first[first.len() - 1].pid);
            assert(second.drop_last()[c] == first[a]);
        }
        assert forall|a: int| 0 <= a < second.drop_last().len() implies first.drop_last().contains(
            #[trigger] second.drop_last()[a],
        ) by {
            assert(first.contains(second[a]));
            let c = choose|c: int| 0 <= c < first.len() && first[c] == second[a];
            assert(second[a].pid < second[second.len() - 1].pid);
            assert(first.drop_last()[c] == second[a]);
        }
        lemma_sorted_listings_agree(first.drop_last(), second.drop_last());
        assert(first =~= first.drop_last().push(last));
        assert(second =~= second.drop_last().push(other));
    }
}

/// Children of Lima processes are Lima processes: the selection is closed
/// under descent.
pub proof fn law_selection_is_closed_under_descent(
    rows: Seq<ProcessView>,
    parent: int,
    child: int,
)
    requires
        is_lima(rows, parent),
        0 <= child < rows.len(),
        rows[child].parent_pid == rows[parent].pid,
    ensures
        is_lima(rows, child),
{
    let steps = choose|steps: nat| reaches_root(rows, parent, steps);
    assert(is_parent(rows, parent, child));
    assert(reaches_root(rows, child, steps + 1));
}

/// A process that is no Lima root is selected only for a selected parent.
pub proof fn law_selection_needs_a_lineage(rows: Seq<ProcessView>, i: int)
    requires
        is_lima(rows, i),
        root_role(rows[i].command) is None,
    ensures
        exists|j: int| #[trigger] is_lima(rows, j) && rows[j].pid == rows[i].parent_pid,
{
    let steps = choose|steps: nat| reaches_root(rows, i, steps);
    let j = choose|j: int| #[trigger]
        is_parent(rows, j, i) && reaches_root(rows, j, (steps - 1) as nat);
    assert(is_lima(rows, j));
}

/// The role of a process is that of its program, wherever the program stands
/// and in whatever case it is written.
pub proof fn law_roles_depend_on_the_program_name(
    directory: Seq<char>,
    name: Seq<char>,
)
    requires
        !name.contains('/'),
    ensures
        basename(directory + seq!['/'] + name) == scan::lowered(name),
        basename(name) == scan::lowered(name),
        process_role(directory + seq!['/'] + name) == process_role(name),
        root_role(directory + seq!['/'] + name) == root_role(name),
        basename(scan::lowered(name)) == basename(name),
{
    let path = directory + seq!['/'] + name;
    lemma_last_piece(directory, name);
    scan::law_joining_is_undone_by_splitting(seq![name], '/');
    assert(scan::joined(seq![name], '/') == name);
    let lower = scan::lowered(name);
    assert(!lower.contains('/')) by {
        if lower.contains('/') {
            let i = choose|i: int| 0 <= i < lower.len() && lower[i] == '/';
            assert(name[i] == '/');
            assert(name.contains(name[i]));
        }
    }
    scan::law_joining_is_undone_by_splitting(seq![lower], '/');
    assert(scan::joined(seq![lower], '/') == lower);
    assert(scan::lowered(lower) =~= lower);
}

proof fn lemma_last_piece(directory: Seq<char>, name: Seq<char>)
    requires
        !name.contains('/'),
    ensures
        scan::split_on(directory + seq!['/'] + name, '/').last() == name,
    decreases directory.len(),
{
    let path = directory + seq!['/'] + name;
    let at = scan::first_position(path, '/');
    scan::lemma_first_position_found(path, '/');
    assert(path[directory.len() as int] == '/');
    assert(at <= directory.len());
    let rest = path.skip(at + 1);
    let pieces = scan::split_on(rest, '/');
    if at == directory.len() {
        assert(rest =~= name);
        scan::law_joining_is_undone_by_splitting(seq![name], '/');
        assert(scan::joined(seq![name], '/') == name);
    } else {
        let inner = directory.skip(at + 1);
        assert(rest =~= inner + seq!['/'] + name);
        lemma_last_piece(inner, name);
    }
    scan::law_splitting_is_undone_by_joining(rest, '/');
    assert((seq![path.take(at)] + pieces).last() == pieces.last());
}

/// The roots of Lima are its control program and its agents, and of what
/// descends from them the machines, the network and the shared files are told
/// by their programs.
pub proof fn law_roles_are_told_by_their_programs(command: Seq<char>)
    ensures
        ({
            let name = basename(command);
            let role = process_role(command);
            &&& role == LimaProcessRole::Controller <==> name == "limactl"@
            &&& role == LimaProcessRole::HostAgent <==> name != "limactl"@ && (name == "lima"@
                || text::has_prefix(name, "lima-"@))
            &&& root_role(command) is Some <==> role == LimaProcessRole::Controller || role
                == LimaProcessRole::HostAgent
            &&& root_role(command) is Some ==> root_role(command) == Some(role)
            &&& root_role(command) is None ==> {
                &&& role == LimaProcessRole::VirtualMachine <==> name == "vfkit"@
                    || text::has_prefix(name, "qemu-system-"@) || name
                    == "virtualization.virtualmachine"@
                &&& role == LimaProcessRole::Network ==> name == "socket_vmnet"@ || name
                    == "vde_switch"@
                &&& role == LimaProcessRole::FileSharing ==> name == "virtiofsd"@
                &&& role == LimaProcessRole::Auxiliary ==> name != "socket_vmnet"@ && name
                    != "vde_switch"@ && name != "virtiofsd"@
            }
        }),
{
}

/// Five fields and the rest of a line make a process: its number and its
/// parent's, its share of the processor in hundredths of a percent, its memory
/// in kibibytes, and how long it has run.
pub proof fn law_process_rows_are_read_by_their_fields(line: Seq<char>)
    ensures
        process_row(line) matches Some(row) ==> {
            &&& row.pid > 0
            &&& field(line, 4) is Some
            &&& text::parsed_number((field(line, 0)->0).0, 4_294_967_295) == Some(row.pid as nat)
            &&& text::parsed_number((field(line, 1)->0).0, 4_294_967_295) == Some(
                row.parent_pid as nat,
            )
            &&& macos_readings::decimal_scaled((field(line, 2)->0).0, 100) == Some(
                row.cpu_basis_points as u64,
            )
            &&& row.cpu_basis_points <= 10_000_000
            &&& row.rss_bytes % 1024 == 0
            &&& text::parsed_number((field(line, 3)->0).0, u64::MAX as nat) == Some(
                (row.rss_bytes / 1024) as nat,
            )
            &&& row.rss_bytes <= 1_125_899_906_842_624
            &&& macos_readings::elapsed_seconds((field(line, 4)->0).0) == Some(row.elapsed_seconds)
            &&& row.command == scan::trimmed((field(line, 4)->0).1)
            &&& row.command.len() > 0
        },
{
}

/// A row is read whenever its fields are numbers within their bounds and a
/// command follows.
pub proof fn law_bounded_rows_are_read(line: Seq<char>)
    requires
        field(line, 0) is Some,
        field(line, 1) is Some,
        field(line, 2) is Some,
        field(line, 3) is Some,
        field(line, 4) is Some,
        text::parsed_number((field(line, 0)->0).0, 4_294_967_295) matches Some(pid) && pid > 0,
        text::parsed_number((field(line, 1)->0).0, 4_294_967_295) is Some,
        macos_readings::decimal_scaled((field(line, 2)->0).0, 100) matches Some(points) && points
            <= 10_000_000,
        text::parsed_number((field(line, 3)->0).0, u64::MAX as nat) matches Some(kib) && kib
            <= 1_099_511_627_776,
        macos_readings::elapsed_seconds((field(line, 4)->0).0) is Some,
        scan::trimmed((field(line, 4)->0).1).len() > 0,
        !scan::trimmed((field(line, 4)->0).1).contains('\0'),
    ensures
        process_row(line) is Some,
{
}

/// A table is read exactly when every line of it is a process, there are at
/// most 4096 of them, and no two have one number.
pub proof fn law_tables_are_read_whole(output: Seq<char>)
    ensures
        ({
            let lines = scan::nonblank_lines(output);
            &&& process_table(output) is Some ==> lines.len() <= 4_096
            &&& process_table(output) matches Some(rows) ==> {
                &&& rows.len() == lines.len()
                &&& forall|i: int|
                    0 <= i < rows.len() ==> process_row(lines[i]) == Some(#[trigger] rows[i])
                &&& forall|i: int, j: int|
                    0 <= i < j < rows.len() ==> (#[trigger] rows[i]).pid != (
                    #[trigger] rows[j]).pid
            }
            &&& lines.len() <= 4_096 && (forall|i: int|
                0 <= i < lines.len() ==> process_row(#[trigger] lines[i]) is Some) && (forall|
                i: int,
                j: int,
            |
                0 <= i < j < lines.len() ==> process_row(#[trigger] lines[i])->0.pid != process_row(
                    #[trigger] lines[j],
                )->0.pid) ==> process_table(output) is Some
        }),
{
    lemma_rows_of_lines(scan::nonblank_lines(output));
}

proof fn lemma_rows_of_lines(lines: Seq<Seq<char>>)
    ensures
        process_rows(lines) is Some <==> forall|i: int|
            0 <= i < lines.len() ==> process_row(#[trigger] lines[i]) is Some,
        process_rows(lines) matches Some(rows) ==> rows.len() == lines.len() && forall|i: int|
            0 <= i < rows.len() ==> process_row(lines[i]) == Some(#[trigger] rows[i]),
    decreases lines.len(),
{
    if lines.len() > 0 {
        let before = lines.drop_last();
        lemma_rows_of_lines(before);
        assert forall|i: int| 0 <= i < before.len() implies #[trigger] before[i] == lines[i] by {}
        if process_rows(before) is Some && process_row(lines.last()) is Some {
            assert forall|i: int| 0 <= i < lines.len() implies process_row(
                #[trigger] lines[i],
            ) is Some by {
                if i < before.len() {
                    assert(before[i] == lines[i]);
                }
            }
            let rows = process_rows(lines)->0;
            assert forall|i: int| 0 <= i < rows.len() implies process_row(lines[i]) == Some(
                #[trigger] rows[i],
            ) by {
                if i < before.len() {
                    assert(process_rows(before)->0[i] == rows[i]);
                }
            }
        }
    }
}

/// What is shown of a process is what was read of it.
pub proof fn law_processes_are_shown_as_read(row: ProcessView)
    ensures
        observed(row).pid == row.pid,
        observed(row).parent_pid == row.parent_pid,
        observed(row).cpu_basis_points == row.cpu_basis_points,
        observed(row).rss_bytes == row.rss_bytes,
        observed(row).elapsed_seconds == row.elapsed_seconds,
        observed(row).role == process_role(row.command),
{
}

/// A root of Lima is always selected.
pub proof fn law_roots_are_selected(rows: Seq<ProcessView>, i: int)
    requires
        0 <= i < rows.len(),
        root_role(rows[i].command) is Some,
    ensures
        is_lima(rows, i),
{
    assert(reaches_root(rows, i, 0));
}

} // verus!
