//! The evaluator's decisions: which process to start for each stage of a
//! pipeline, how its streams are attached, and how the line ends.
//!
//! The evaluator starts nothing itself. It hands out one step at a time;
//! the caller performs it and reports what came of it.

use vstd::prelude::*;
use vstd::string::*;
use crate::parser::{parse, parsed, Binary, Expr, ExprModel, Program, ProgramModel};
use crate::programs::{
    argument_at, attached, cat, cd, copy_strings, echo, grep, ls, map_error, wc, Spawn,
    SpawnModel, Stream,
};
use crate::scanner::Command;

verus! {

/// Why a line ended without running to its end.
#[derive(Debug, Copy, Clone, PartialEq, Eq, Structural)]
pub enum Failure {
    /// The line asked the shell to stop.
    Exit,
    /// The process of this command could not be started.
    Spawn(Command),
    /// The working directory could not be changed.
    ChangeDir,
}

/// The text that goes with each failure.
pub open spec fn failure_text(failure: Failure) -> Seq<char> {
    match failure {
        Failure::Exit => "Exiting shell..."@,
        Failure::ChangeDir => "cd command failed"@,
        Failure::Spawn(Command::Ls) => "Could not perform ls"@,
        Failure::Spawn(Command::Echo) => "Could not perform echo"@,
        Failure::Spawn(Command::Wc) => "Could not perform wc"@,
        Failure::Spawn(Command::Grep) => "Could not perform grep"@,
        Failure::Spawn(Command::Cat) => "Could not perform cat"@,
        Failure::Spawn(_) => "Command failed"@,
    }
}

impl Failure {
    /// The message of this failure.
    pub fn message(&self) -> (r: &'static str)
        ensures
            r@ == failure_text(*self),
    {
        match self {
            Failure::Exit => "Exiting shell...",
            Failure::ChangeDir => "cd command failed",
            Failure::Spawn(Command::Ls) => "Could not perform ls",
            Failure::Spawn(Command::Echo) => "Could not perform echo",
            Failure::Spawn(Command::Wc) => "Could not perform wc",
            Failure::Spawn(Command::Grep) => "Could not perform grep",
            Failure::Spawn(Command::Cat) => "Could not perform cat",
            Failure::Spawn(_) => "Command failed",
        }
    }
}

/// What one stage asks the caller to do.
#[derive(Debug, PartialEq, Eq)]
pub enum Effect {
    /// Start this process.
    Spawn(Spawn),
    /// Change the working directory to this path.
    ChangeDir(String),
    /// Print this diagnostic; no process is started.
    Report(&'static str),
    /// Do nothing.
    Nothing,
}

/// What an `Effect` stands for.
pub enum EffectModel {
    Spawn(SpawnModel),
    ChangeDir(Seq<char>),
    Report(Seq<char>),
    Nothing,
}

impl View for Effect {
    type V = EffectModel;

    open spec fn view(&self) -> EffectModel {
        match *self {
            Effect::Spawn(spawn) => EffectModel::Spawn(spawn@),
            Effect::ChangeDir(path) => EffectModel::ChangeDir(path@),
            Effect::Report(text) => EffectModel::Report(text@),
            Effect::Nothing => EffectModel::Nothing,
        }
    }
}

/// The process that runs `executable` for `program` between the two streams.
pub open spec fn spawn_of(
    executable: Seq<char>,
    program: ProgramModel,
    stdin: Option<Stream>,
    stdout: Option<Stream>,
) -> EffectModel {
    EffectModel::Spawn(
        SpawnModel {
            executable,
            arguments: program.arguments,
            stdin: attached(stdin),
            stdout: attached(stdout),
        },
    )
}

/// The executable that runs `command`, for the commands that are run as
/// processes of their own.
pub open spec fn executable_of(command: Command) -> Option<Seq<char>> {
    match command {
        Command::Ls => Some("ls"@),
        Command::Echo => Some("echo"@),
        Command::Wc => Some("wc"@),
        Command::Grep => Some("grep"@),
        Command::Cat => Some("cat"@),
        _ => None,
    }
}

/// What `program` asks for between the two streams. `exit` is the failure
/// that stops the shell; `cd` changes to its first argument, or does nothing
/// without one; an unknown command is reported; every other command is a
/// process of its own name that gets all the arguments.
pub open spec fn effect_of(
    program: ProgramModel,
    stdin: Option<Stream>,
    stdout: Option<Stream>,
) -> Result<EffectModel, Failure> {
    match program.command {
        Command::Exit => Err(Failure::Exit),
        Command::Unknown => Ok(EffectModel::Report("Unknown command"@)),
        Command::Cd => match argument_at(program.arguments, 0) {
            Some(path) => Ok(EffectModel::ChangeDir(path)),
            None => Ok(EffectModel::Nothing),
        },
        command => Ok(spawn_of(executable_of(command)->Some_0, program, stdin, stdout)),
    }
}

/// The model of an effect or a failure.
pub open spec fn effect_model(r: Result<Effect, Failure>) -> Result<EffectModel, Failure> {
    match r {
        Ok(effect) => Ok(effect@),
        Err(failure) => Err(failure),
    }
}

impl Program {
    /// Decides what this program asks for between the two streams.
    pub fn execute(&self, stdin: Option<Stream>, stdout: Option<Stream>) -> (r: Result<
        Effect,
        Failure,
    >)
        ensures
            effect_model(r) == effect_of(self@, stdin, stdout),
    {
        match self.command {
            Command::Ls => Ok(Effect::Spawn(ls(&self.arguments, stdin, stdout))),
            Command::Wc => Ok(Effect::Spawn(wc(&self.arguments, stdin, stdout))),
            Command::Grep => Ok(Effect::Spawn(grep(&self.arguments, stdin, stdout))),
            Command::Cat => Ok(Effect::Spawn(cat(&self.arguments, stdin, stdout))),
            Command::Echo => Ok(Effect::Spawn(echo(&self.arguments, stdin, stdout))),
            Command::Cd => match cd(&self.arguments) {
                Some(path) => Ok(Effect::ChangeDir(path)),
                None => Ok(Effect::Nothing),
            },
            Command::Exit => Err(Failure::Exit),
            Command::Unknown => Ok(Effect::Report("Unknown command")),
        }
    }
}

/// What came of the effect that the caller performed.
#[derive(Debug, Copy, Clone, PartialEq, Eq, Structural)]
pub enum Event {
    /// A process was started.
    Spawned,
    /// The effect was performed and left no process.
    Done,
    /// The effect could not be performed.
    Failed,
}

/// What the caller does next.
#[derive(Debug, PartialEq, Eq)]
pub enum Step {
    /// Perform this effect and report what came of it.
    Run(Effect),
    /// The line is over. `Ok` names the stage whose process the caller
    /// waits for, if the last stage left one.
    Finished(Result<Option<usize>, Failure>),
}

/// What a `Step` stands for.
pub enum StepModel {
    Run(EffectModel),
    Finished(Result<Option<usize>, Failure>),
}

impl View for Step {
    type V = StepModel;

    open spec fn view(&self) -> StepModel {
        match *self {
            Step::Run(effect) => StepModel::Run(effect@),
            Step::Finished(outcome) => StepModel::Finished(outcome),
        }
    }
}

/// The programs of `expr` from left to right: the stages of the pipeline.
pub open spec fn leaves(expr: ExprModel) -> Seq<ProgramModel>
    decreases expr,
{
    match expr {
        ExprModel::Program(program) => seq![program],
        ExprModel::Binary { left, right, operator } => leaves(*left) + leaves(*right),
    }
}

/// The models of the programs of `v`.
pub open spec fn program_models(v: Seq<Program>) -> Seq<ProgramModel> {
    v.map_values(|p: Program| p@)
}

/// The evaluation of one line, between two steps.
#[derive(Debug)]
pub struct Evaluator {
    stages: Vec<Program>,
    cursor: usize,
    fed: bool,
    failure: Option<Failure>,
    stdin: Option<Stream>,
    stdout: Option<Stream>,
}

/// What an `Evaluator` stands for: the stages, the index of the stage that
/// is next, whether the stage before it left a process to read from, the
/// failure that ended the line, and the streams of the whole line.
pub struct EvaluatorModel {
    pub stages: Seq<ProgramModel>,
    pub cursor: nat,
    pub fed: bool,
    pub failure: Option<Failure>,
    pub stdin: Option<Stream>,
    pub stdout: Option<Stream>,
}

impl View for Evaluator {
    type V = EvaluatorModel;

    closed spec fn view(&self) -> EvaluatorModel {
        EvaluatorModel {
            stages: program_models(self.stages@),
            cursor: self.cursor as nat,
            fed: self.fed,
            failure: self.failure,
            stdin: self.stdin,
            stdout: self.stdout,
        }
    }
}

/// The evaluation of `expr` before its first step.
pub open spec fn started(
    expr: ExprModel,
    stdin: Option<Stream>,
    stdout: Option<Stream>,
) -> EvaluatorModel {
    EvaluatorModel { stages: leaves(expr), cursor: 0, fed: false, failure: None, stdin, stdout }
}

/// The standard input of the next stage: that of the line for the first
/// stage, the pipe of the stage before where that stage left a process, and
/// none otherwise.
pub open spec fn stage_stdin(state: EvaluatorModel) -> Option<Stream> {
    if state.cursor == 0 {
        state.stdin
    } else if state.fed {
        Some(Stream::Upstream)
    } else {
        None
    }
}

/// The standard output of the next stage: that of the line for the last
/// stage, a new pipe for every other.
pub open spec fn stage_stdout(state: EvaluatorModel) -> Option<Stream> {
    if state.cursor + 1 < state.stages.len() {
        Some(Stream::Piped)
    } else {
        state.stdout
    }
}

/// The step that is due in `state`.
pub open spec fn pending(state: EvaluatorModel) -> StepModel {
    match state.failure {
        Some(failure) => StepModel::Finished(Err(failure)),
        None => if state.cursor >= state.stages.len() {
            StepModel::Finished(
                Ok(
                    if state.fed && state.cursor > 0 {
                        Some((state.cursor - 1) as usize)
                    } else {
                        None
                    },
                ),
            )
        } else {
            match effect_of(
                state.stages[state.cursor as int],
                stage_stdin(state),
                stage_stdout(state),
            ) {
                Ok(effect) => StepModel::Run(effect),
                Err(failure) => StepModel::Finished(Err(failure)),
            }
        },
    }
}

/// The failure of a stage whose effect could not be performed.
pub open spec fn failure_of(command: Command) -> Failure {
    match command {
        Command::Cd => Failure::ChangeDir,
        other => Failure::Spawn(other),
    }
}

/// The state after the caller reports `event` for the step due in `state`.
/// A finished line stays as it is. A failure ends the line. Otherwise the
/// next stage is due, fed by this one if this one started a process.
pub open spec fn after(state: EvaluatorModel, event: Event) -> EvaluatorModel {
    match pending(state) {
        StepModel::Finished(_) => state,
        StepModel::Run(effect) => match event {
            Event::Failed => EvaluatorModel {
                failure: Some(failure_of(state.stages[state.cursor as int].command)),
                ..state
            },
            Event::Spawned => EvaluatorModel {
                cursor: state.cursor + 1,
                fed: effect is Spawn,
                ..state
            },
            Event::Done => EvaluatorModel { cursor: state.cursor + 1, fed: false, ..state },
        },
    }
}

/// Appends the programs of `expr`, from left to right, to `stages`.
fn collect(expr: &Expr, stages: &mut Vec<Program>)
    ensures
        program_models(final(stages)@) == program_models(old(stages)@) + leaves(expr@),
    decreases expr,
{
    match expr {
        Expr::Program(program) => {
            stages.push(
                Program { command: program.command, arguments: copy_strings(&program.arguments) },
            );
        },
        Expr::Binary(binary) => {
            collect(&binary.left, stages);
            collect(&binary.right, stages);
        },
    }
}

impl Binary {
    /// Starts the evaluation of `left | right` between the two streams.
    pub fn eval(&self, stdin: Option<Stream>, stdout: Option<Stream>) -> (r: Evaluator)
        ensures
            r@ == started(
                ExprModel::Binary {
                    left: Box::new((*self.left)@),
                    right: Box::new((*self.right)@),
                    operator: self.operator,
                },
                stdin,
                stdout,
            ),
    {
        let mut stages: Vec<Program> = Vec::new();
        collect(&self.left, &mut stages);
        collect(&self.right, &mut stages);
        Evaluator { stages, cursor: 0, fed: false, failure: None, stdin, stdout }
    }
}

impl Expr {
    /// Starts the evaluation of this expression, which reads `read_f` and
    /// writes `write_f`.
    pub fn eval(&self, read_f: Option<Stream>, write_f: Option<Stream>) -> (r: Evaluator)
        ensures
            r@ == started(self@, read_f, write_f),
    {
        let mut stages: Vec<Program> = Vec::new();
        collect(self, &mut stages);
        Evaluator { stages, cursor: 0, fed: false, failure: None, stdin: read_f, stdout: write_f }
    }
}

impl Evaluator {
    /// The step that is due.
    pub fn begin(&self) -> (r: Step)
        ensures
            r@ == pending(self@),
    {
        match self.failure {
            Some(failure) => Step::Finished(Err(failure)),
            None => if self.cursor >= self.stages.len() {
                if self.fed && self.cursor > 0 {
                    Step::Finished(Ok(Some(self.cursor - 1)))
                } else {
                    Step::Finished(Ok(None))
                }
            } else {
                let stdin = if self.cursor == 0 {
                    self.stdin
                } else if self.fed {
                    Some(Stream::Upstream)
                } else {
                    None
                };
                let stdout = if self.cursor + 1 < self.stages.len() {
                    Some(Stream::Piped)
                } else {
                    self.stdout
                };
                match self.stages[self.cursor].execute(stdin, stdout) {
                    Ok(effect) => Step::Run(effect),
                    Err(failure) => Step::Finished(Err(failure)),
                }
            },
        }
    }

    /// Takes in what came of the step that was due, and returns the step
    /// that is due now.
    pub fn resume(&mut self, event: Event) -> (r: Step)
        ensures
            final(self)@ == after(old(self)@, event),
            r@ == pending(final(self)@),
    {
        if self.failure.is_none() && self.cursor < self.stages.len() {
            let command = self.stages[self.cursor].command;
            match (command, event) {
                (Command::Exit, _) => {},
                (Command::Cd, Event::Failed) => {
                    self.failure = Some(Failure::ChangeDir);
                },
                (_, Event::Failed) => {
                    self.failure = Some(Failure::Spawn(command));
                },
                (_, Event::Spawned) => {
                    self.fed = match command {
                        Command::Cd | Command::Unknown => false,
                        _ => true,
                    };
                    self.cursor = self.cursor + 1;
                },
                (_, Event::Done) => {
                    self.fed = false;
                    self.cursor = self.cursor + 1;
                },
            }
        }
        self.begin()
    }
}

/// Parses a line and starts its evaluation between the shell's own
/// streams. A line that does not parse starts nothing.
pub fn run_program(input: &String) -> (r: Result<Evaluator, &'static str>)
    ensures
        match parsed(input@) {
            Some(expr) => r is Ok && r->Ok_0@ == started(
                expr,
                Some(Stream::Inherit),
                Some(Stream::Inherit),
            ),
            None => r is Err && r->Err_0@ == "No command found"@,
        },
{
    match parse(input.clone()) {
        Ok(ast) => Ok(ast.eval(Some(Stream::Inherit), Some(Stream::Inherit))),
        Err(message) => Err(message),
    }
}

/// What a finished line reports: success, or `"Failure"` whatever the
/// failure was.
pub fn conclude(outcome: Result<Option<usize>, Failure>) -> (r: Result<(), &'static str>)
    ensures
        outcome is Ok ==> r is Ok,
        outcome is Err ==> r is Err && r->Err_0@ == "Failure"@,
{
    match map_error(outcome, "Failure") {
        Ok(_) => Ok(()),
        Err(message) => Err(message),
    }
}

} // verus!
