//! Commands that are run on the host, and the records that running them leaves.
use vstd::prelude::*;

use crate::outcome;
use crate::text;

verus! {

/// One variable of a command's environment.
#[derive(Debug, Clone, PartialEq, Eq)]
pub struct EnvironmentVariable {
    pub name: String,
    pub value: String,
}

pub struct VariableView {
    pub name: Seq<char>,
    pub value: Seq<char>,
}

impl View for EnvironmentVariable {
    type V = VariableView;

    open spec fn view(&self) -> VariableView {
        VariableView { name: self.name@, value: self.value@ }
    }
}

/// A program with its arguments and the variables it is given, in the order of
/// their names.
#[derive(Debug, Clone, PartialEq, Eq)]
pub struct CommandSpec {
    pub program: String,
    pub arguments: Vec<String>,
    pub environment: Vec<EnvironmentVariable>,
}

pub struct CommandView {
    pub program: Seq<char>,
    pub arguments: Seq<Seq<char>>,
    pub environment: Seq<VariableView>,
}

impl View for CommandSpec {
    type V = CommandView;

    open spec fn view(&self) -> CommandView {
        CommandView {
            program: self.program@,
            arguments: outcome::seq_view(self.arguments@),
            environment: outcome::seq_view(self.environment@),
        }
    }
}

/// The variables with one more set, in the order of their names.
pub open spec fn with_variable(
    variables: Seq<VariableView>,
    added: VariableView,
) -> Seq<VariableView>
    decreases variables.len(),
{
    if variables.len() == 0 || text::precedes(added.name, variables[0].name) {
        seq![added] + variables
    } else if added.name == variables[0].name {
        seq![added] + variables.skip(1)
    } else {
        seq![variables[0]] + with_variable(variables.skip(1), added)
    }
}

/// The names of the variables.
pub open spec fn variable_names(variables: Seq<VariableView>) -> Seq<Seq<char>> {
    Seq::new(variables.len(), |i: int| variables[i].name)
}

impl CommandView {
    /// The program followed by its arguments.
    pub open spec fn argv(self) -> Seq<Seq<char>> {
        seq![self.program] + self.arguments
    }
}

impl CommandSpec {
    /// A command without arguments or variables.
    pub fn new(program: &str) -> (command: CommandSpec)
        ensures
            command@ == (CommandView {
                program: program@,
                arguments: Seq::empty(),
                environment: Seq::empty(),
            }),
    {
        let command = CommandSpec {
            program: program.to_owned(),
            arguments: Vec::new(),
            environment: Vec::new(),
        };
        assert(command@.arguments =~= Seq::empty());
        assert(command@.environment =~= Seq::empty());
        command
    }

    /// The command with one more argument.
    pub fn argument(self, argument: &str) -> (command: CommandSpec)
        ensures
            command@ == (CommandView { arguments: self@.arguments.push(argument@), ..self@ }),
    {
        let mut command = self;
        command.arguments.push(argument.to_owned());
        assert(command@.arguments =~= self@.arguments.push(argument@));
        command
    }

    /// The command with one variable set.
    pub fn environment(self, name: &str, value: &str) -> (command: CommandSpec)
        ensures
            command@ == (CommandView {
                environment: with_variable(
                    self@.environment,
                    VariableView { name: name@, value: value@ },
                ),
                ..self@
            }),
    {
        let mut command = self;
        let ghost variables = self@.environment;
        let ghost added = VariableView { name: name@, value: value@ };
        let variable = EnvironmentVariable { name: name.to_owned(), value: value.to_owned() };
        let mut at: usize = 0;
        assert(variables.take(0) + with_variable(variables.skip(0), added) =~= with_variable(
            variables.skip(0),
            added,
        ));
        assert(variables.skip(0) =~= variables);
        while at < command.environment.len() && !text::same_text(
            name,
            command.environment[at].name.as_str(),
        ) && !text::is_before(name, command.environment[at].name.as_str())
            invariant
                command == self,
                variables == self@.environment,
                added.name == name@,
                at <= variables.len(),
                variables.take(at as int) + with_variable(variables.skip(at as int), added)
                    == with_variable(variables, added),
            decreases variables.len() - at,
        {
            let ghost rest = variables.skip(at as int);
            assert(rest.skip(1) =~= variables.skip(at as int + 1));
            assert(rest[0] == command.environment@[at as int]@);
            assert(variables.take(at as int) + (seq![rest[0]] + with_variable(rest.skip(1), added))
                =~= variables.take(at as int + 1) + with_variable(
                variables.skip(at as int + 1),
                added,
            ));
            at += 1;
        }
        let ghost rest = variables.skip(at as int);
        if at < command.environment.len() && text::same_text(
            name,
            command.environment[at].name.as_str(),
        ) {
            proof {
                text::lemma_precedes_total(name@, rest[0].name);
            }
            assert(rest[0] == command.environment@[at as int]@);
            command.environment.set(at, variable);
            assert(command@.environment =~= variables.take(at as int) + (seq![added] + rest.skip(
                1,
            )));
        } else {
            assert(at < variables.len() ==> rest[0] == command.environment@[at as int]@);
            command.environment.insert(at, variable);
            assert(command@.environment =~= variables.take(at as int) + (seq![added] + rest));
        }
        command
    }

    /// The program followed by its arguments.
    pub fn displayed_argv(&self) -> (argv: Vec<String>)
        ensures
            outcome::seq_view(argv@) == self@.argv(),
    {
        let mut argv: Vec<String> = Vec::new();
        argv.push(self.program.clone());
        let mut i: usize = 0;
        assert(outcome::seq_view(argv@) =~= seq![self@.program] + self@.arguments.take(0));
        while i < self.arguments.len()
            invariant
                i <= self.arguments@.len(),
                outcome::seq_view(argv@) == seq![self@.program] + self@.arguments.take(i as int),
            decreases self.arguments@.len() - i,
        {
            let ghost before = outcome::seq_view(argv@);
            argv.push(self.arguments[i].clone());
            assert(outcome::seq_view(argv@) =~= before.push(self@.arguments[i as int]));
            assert(outcome::seq_view(argv@) =~= seq![self@.program] + self@.arguments.take(
                i as int + 1,
            ));
            i += 1;
        }
        assert(self@.arguments.take(i as int) =~= self@.arguments);
        argv
    }
}

/// What running a command left behind.
#[derive(Debug, PartialEq, Eq)]
pub struct ExecutionRecord {
    pub argv: Vec<String>,
    pub environment_keys: Vec<String>,
    pub status: Option<i32>,
    pub success: bool,
    pub stdout: String,
    pub stderr: String,
}

pub struct RecordView {
    pub argv: Seq<Seq<char>>,
    pub environment_keys: Seq<Seq<char>>,
    pub status: Option<i32>,
    pub success: bool,
    pub stdout: Seq<char>,
    pub stderr: Seq<char>,
}

impl View for ExecutionRecord {
    type V = RecordView;

    open spec fn view(&self) -> RecordView {
        RecordView {
            argv: outcome::seq_view(self.argv@),
            environment_keys: outcome::seq_view(self.environment_keys@),
            status: self.status,
            success: self.success,
            stdout: self.stdout@,
            stderr: self.stderr@,
        }
    }
}

/// Why a command left no record.
#[derive(Debug, Clone, Copy, PartialEq, Eq, Structural)]
pub enum CommandFailure {
    NotFound,
    TimedOut,
    OutputLimit,
    Other,
}

/// Runs commands on the host.
pub trait CommandExecutor {
    /// Whether running `command` can end this way: with a record, or without.
    /// An implementation that promises nothing can end any way.
    open spec fn can_leave(&self, command: CommandView, record: Option<RecordView>) -> bool {
        true
    }

    fn execute(&self, command: &CommandSpec) -> (r: Result<ExecutionRecord, CommandFailure>)
        ensures
            self.can_leave(
                command@,
                match r {
                    Ok(record) => Some(record@),
                    Err(_) => None,
                },
            ),
    ;
}

/// Whether two lists hold the same texts in the same order.
pub fn same_texts(left: &Vec<String>, right: &Vec<String>) -> (r: bool)
    ensures
        r == (outcome::seq_view(left@) == outcome::seq_view(right@)),
{
    let ghost a = outcome::seq_view(left@);
    let ghost b = outcome::seq_view(right@);
    if left.len() != right.len() {
        assert(a.len() != b.len());
        return false;
    }
    let mut i: usize = 0;
    while i < left.len()
        invariant
            i <= left@.len(),
            left@.len() == right@.len(),
            a == outcome::seq_view(left@),
            b == outcome::seq_view(right@),
            forall|k: int| 0 <= k < i ==> a[k] == b[k],
        decreases left@.len() - i,
    {
        if !text::same_text(left[i].as_str(), right[i].as_str()) {
            assert(a[i as int] != b[i as int]);
            return false;
        }
        i += 1;
    }
    assert(a =~= b);
    true
}

/// Setting a variable leaves every other variable as it was, and the variable
/// with the new value and no other.
pub proof fn law_variables_are_set_once(
    variables: Seq<VariableView>,
    added: VariableView,
    other: VariableView,
)
    requires
        are_ordered(variables),
    ensures
        ({
            let after = with_variable(variables, added);
            &&& are_ordered(after)
            &&& after.contains(added)
            &&& other.name == added.name && after.contains(other) ==> other == added
            &&& other.name != added.name ==> (after.contains(other) <==> variables.contains(other))
        }),
    decreases variables.len(),
{
    let after = with_variable(variables, added);
    if variables.len() == 0 || text::precedes(added.name, variables[0].name) {
        assert(after[0] == added);
        assert forall|i: int| 0 < i < after.len() implies #[trigger] after[i] == variables[i
            - 1] by {}
        assert forall|i: int| 0 <= i < variables.len() implies #[trigger] variables[i] == after[i
            + 1] by {}
        assert forall|i: int, j: int| 0 <= i < j < after.len() implies text::precedes(
            (#[trigger] after[i]).name,
            (#[trigger] after[j]).name,
        ) by {
            if i == 0 && j > 1 {
                assert(text::precedes(variables[0].name, variables[j - 1].name));
                text::lemma_precedes_transitive(
                    added.name,
                    variables[0].name,
                    variables[j - 1].name,
                );
            }
        }
        if variables.contains(other) {
            let k = choose|k: int| 0 <= k < variables.len() && variables[k] == other;
            assert(after[k + 1] == other);
        }
        if after.contains(other) && other != added {
            let k = choose|k: int| 0 <= k < after.len() && after[k] == other;
            assert(variables[k - 1] == other);
            if other.name == added.name {
                if k > 1 {
                    assert(text::precedes(variables[0].name, variables[k - 1].name));
                    text::lemma_precedes_transitive(
                        added.name,
                        variables[0].name,
                        variables[k - 1].name,
                    );
                }
                text::lemma_precedes_total(added.name, other.name);
            }
        }
    } else if added.name == variables[0].name {
        assert(after[0] == added);
        assert forall|i: int| 0 < i < after.len() implies #[trigger] after[i] == variables[i] by {}
        assert forall|i: int, j: int| 0 <= i < j < after.len() implies text::precedes(
            (#[trigger] after[i]).name,
            (#[trigger] after[j]).name,
        ) by {
            assert(text::precedes(variables[i].name, variables[j].name));
        }
        if variables.contains(other) && other.name != added.name {
            let k = choose|k: int| 0 <= k < variables.len() && variables[k] == other;
            assert(after[k] == other);
        }
        if after.contains(other) && other != added {
            let k = choose|k: int| 0 <= k < after.len() && after[k] == other;
            assert(variables[k] == other);
            assert(text::precedes(variables[0].name, variables[k].name));
            text::lemma_precedes_total(variables[0].name, variables[k].name);
        }
    } else {
        let rest = variables.skip(1);
        let tail = with_variable(rest, added);
        assert forall|i: int| 0 <= i < rest.len() implies #[trigger] rest[i] == variables[i
            + 1] by {}
        assert(are_ordered(rest)) by {
            assert forall|i: int, j: int| 0 <= i < j < rest.len() implies text::precedes(
                (#[trigger] rest[i]).name,
                (#[trigger] rest[j]).name,
            ) by {
                assert(text::precedes(variables[i + 1].name, variables[j + 1].name));
            }
        }
        law_variables_are_set_once(rest, added, other);
        law_variables_are_set_once(rest, added, variables[0]);
        assert(after[0] == variables[0]);
        assert forall|i: int| 0 < i < after.len() implies #[trigger] after[i] == tail[i - 1] by {}
        assert forall|i: int| 0 <= i < tail.len() implies #[trigger] tail[i] == after[i + 1] by {}
        assert forall|i: int, j: int| 0 <= i < j < after.len() implies text::precedes(
            (#[trigger] after[i]).name,
            (#[trigger] after[j]).name,
        ) by {
            if i > 0 {
                assert(text::precedes(tail[i - 1].name, tail[j - 1].name));
            } else {
                let v = tail[j - 1];
                law_variables_are_set_once(rest, added, v);
                assert(tail.contains(v));
                text::lemma_precedes_total(added.name, variables[0].name);
                if v.name != added.name {
                    let k = choose|k: int| 0 <= k < rest.len() && rest[k] == v;
                    assert(text::precedes(variables[0].name, variables[k + 1].name));
                }
            }
        }
        let at = choose|k: int| 0 <= k < tail.len() && tail[k] == added;
        assert(after[at + 1] == added);
        if variables.contains(other) && other.name != added.name {
            let k = choose|k: int| 0 <= k < variables.len() && variables[k] == other;
            if k == 0 {
                assert(after[0] == other);
            } else {
                assert(rest[k - 1] == other);
                let l = choose|l: int| 0 <= l < tail.len() && tail[l] == other;
                assert(after[l + 1] == other);
            }
        }
        if after.contains(other) {
            let k = choose|k: int| 0 <= k < after.len() && after[k] == other;
            if k == 0 {
                assert(variables[0] == other);
            } else {
                assert(tail[k - 1] == other);
                if other.name != added.name {
                    let l = choose|l: int| 0 <= l < rest.len() && rest[l] == other;
                    assert(variables[l + 1] == other);
                }
            }
        }
    }
}

/// The variables are in the order of their names, each once.
pub open spec fn are_ordered(variables: Seq<VariableView>) -> bool {
    forall|i: int, j: int|
        0 <= i < j < variables.len() ==> text::precedes(
            (#[trigger] variables[i]).name,
            (#[trigger] variables[j]).name,
        )
}

} // verus!
