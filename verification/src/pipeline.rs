//! One invocation as a state machine. The machine decides; its driver does
//! the outside work: it performs the action that a step returns and answers
//! with the event that tells how the work went.
//!
//! The stages follow each other as `Parsing`, `Expanding` (once per shell
//! directive), `Writing`, `Invoking`, `CleaningUp`, `Done`. The final text is
//! assembled in the step that takes in the generator's output. A failure at
//! any stage leads to `CleaningUp`, never straight to `Done`.

use crate::assemble::{assemble, generated_text};
use crate::classify::{
    classification, classify, ClassifyError, Invocation, InvocationSpec, LanguageMode, Rejection,
};
use crate::command::{
    append_shell_output, generator_command, generator_command_text, shell_command,
    shell_command_text, with_shell_output, CommandLine, CommandText,
};
use crate::header::{file_name, header_body, header_file_name, header_text};
use crate::text::texts;
use vstd::prelude::*;
use vstd::string::StringExecFns;

verus! {

/// What the machine is waiting for.
#[derive(Clone, Copy, Debug, PartialEq, Eq, Structural)]
pub enum Stage {
    /// The argument list.
    Parsing,
    /// The output of a shell directive.
    Expanding,
    /// The aggregate header to be written.
    Writing,
    /// The generator to exit.
    Invoking,
    /// The aggregate header to be removed.
    CleaningUp,
    /// Nothing: the invocation is over.
    Done,
}

/// Why an invocation gives no text, as mathematical text.
pub enum FailureText {
    EmptyInvocation,
    MalformedArgument { token: Seq<char>, position: int },
    ShellExpansionFailed { directive: Seq<char>, exit_code: Option<i32> },
    TempFileWriteFailed,
    GeneratorNotFound,
}

/// Why an invocation gives no text.
#[derive(Debug)]
pub enum Failure {
    /// The argument list holds no argument.
    EmptyInvocation,
    /// The argument at `position` has no meaning.
    MalformedArgument { token: String, position: usize },
    /// The directive could not be run (no exit code) or did not exit with success.
    ShellExpansionFailed { directive: String, exit_code: Option<i32> },
    /// The aggregate header could not be written.
    TempFileWriteFailed,
    /// The generator's program could not be started.
    GeneratorNotFound,
}

impl View for Failure {
    type V = FailureText;

    open spec fn view(&self) -> FailureText {
        match self {
            Failure::EmptyInvocation => FailureText::EmptyInvocation,
            Failure::MalformedArgument { token, position } => FailureText::MalformedArgument {
                token: token@,
                position: *position as int,
            },
            Failure::ShellExpansionFailed { directive, exit_code } => {
                FailureText::ShellExpansionFailed { directive: directive@, exit_code: *exit_code }
            },
            Failure::TempFileWriteFailed => FailureText::TempFileWriteFailed,
            Failure::GeneratorNotFound => FailureText::GeneratorNotFound,
        }
    }
}

/// What went wrong without costing the result, as mathematical text.
pub enum WarningText {
    GeneratorNonZeroExit { stderr: Seq<u8> },
    TempFileCleanupFailed,
}

/// What went wrong without costing the result.
#[derive(Debug)]
pub enum Warning {
    /// The generator did not exit with success; holds the bytes it wrote to its error stream.
    GeneratorNonZeroExit { stderr: Vec<u8> },
    /// The aggregate header could not be removed.
    TempFileCleanupFailed,
}

impl View for Warning {
    type V = WarningText;

    open spec fn view(&self) -> WarningText {
        match self {
            Warning::GeneratorNonZeroExit { stderr } => WarningText::GeneratorNonZeroExit {
                stderr: stderr@,
            },
            Warning::TempFileCleanupFailed => WarningText::TempFileCleanupFailed,
        }
    }
}

/// The views of a sequence of warnings.
pub open spec fn warning_texts(v: Seq<Warning>) -> Seq<WarningText> {
    v.map_values(|w: Warning| w@)
}

/// How the outside work went, as mathematical text.
pub enum EventText {
    Arguments { input: Seq<char>, millis: u128 },
    ShellOutput { stdout: Seq<char> },
    ShellFailed { exit_code: Option<i32> },
    HeaderWritten { path: Seq<char> },
    HeaderWriteFailed,
    GeneratorExited { success: bool, stdout: Seq<char>, stderr: Seq<u8> },
    GeneratorMissing,
    HeaderRemoved,
    HeaderRemoveFailed,
}

/// How the outside work went.
#[derive(Debug)]
pub enum Event {
    /// The argument list of the invocation, and the time in milliseconds at which it is made.
    Arguments { input: String, millis: u128 },
    /// The shell directive exited with success and printed `stdout`.
    ShellOutput { stdout: String },
    /// The shell directive could not be run (no exit code) or did not exit with success.
    ShellFailed { exit_code: Option<i32> },
    /// The aggregate header now stands at `path`.
    HeaderWritten { path: String },
    /// The aggregate header could not be written.
    HeaderWriteFailed,
    /// The generator ran and exited.
    GeneratorExited { success: bool, stdout: String, stderr: Vec<u8> },
    /// The generator's program could not be started.
    GeneratorMissing,
    /// The aggregate header is gone, or there was none to remove.
    HeaderRemoved,
    /// The aggregate header could not be removed.
    HeaderRemoveFailed,
}

impl View for Event {
    type V = EventText;

    open spec fn view(&self) -> EventText {
        match self {
            Event::Arguments { input, millis } => EventText::Arguments {
                input: input@,
                millis: *millis,
            },
            Event::ShellOutput { stdout } => EventText::ShellOutput { stdout: stdout@ },
            Event::ShellFailed { exit_code } => EventText::ShellFailed { exit_code: *exit_code },
            Event::HeaderWritten { path } => EventText::HeaderWritten { path: path@ },
            Event::HeaderWriteFailed => EventText::HeaderWriteFailed,
            Event::GeneratorExited { success, stdout, stderr } => EventText::GeneratorExited {
                success: *success,
                stdout: stdout@,
                stderr: stderr@,
            },
            Event::GeneratorMissing => EventText::GeneratorMissing,
            Event::HeaderRemoved => EventText::HeaderRemoved,
            Event::HeaderRemoveFailed => EventText::HeaderRemoveFailed,
        }
    }
}

/// The outside work to do next, as mathematical text.
pub enum ActionText {
    RunShell(CommandText),
    WriteHeader { file_name: Seq<char>, body: Seq<char> },
    RunGenerator(CommandText),
    RemoveHeader { path: Option<Seq<char>> },
    Finish,
}

/// The outside work to do next.
#[derive(Debug)]
pub enum Action {
    /// Run the program with the arguments, directly and not through a shell,
    /// and capture what it prints.
    RunShell(CommandLine),
    /// Write `body` to a file named `file_name` in the directory for temporary files.
    WriteHeader { file_name: String, body: String },
    /// Run the generator and capture its output and error streams.
    RunGenerator(CommandLine),
    /// Remove the aggregate header at `path`, if one was written.
    RemoveHeader { path: Option<String> },
    /// Nothing is left to do.
    Finish,
}

/// The view of an optional string.
pub open spec fn text_view(s: Option<String>) -> Option<Seq<char>> {
    match s {
        Some(s) => Some(s@),
        None => None,
    }
}

impl View for Action {
    type V = ActionText;

    open spec fn view(&self) -> ActionText {
        match self {
            Action::RunShell(c) => ActionText::RunShell(c@),
            Action::WriteHeader { file_name, body } => ActionText::WriteHeader {
                file_name: file_name@,
                body: body@,
            },
            Action::RunGenerator(c) => ActionText::RunGenerator(c@),
            Action::RemoveHeader { path } => ActionText::RemoveHeader { path: text_view(*path) },
            Action::Finish => ActionText::Finish,
        }
    }
}

/// The state of one invocation, as mathematical text.
pub struct PipelineText {
    pub stage: Stage,
    /// The time at which the invocation was made, in milliseconds.
    pub millis: u128,
    /// The request as far as it is known.
    pub request: Invocation,
    /// How many shell directives were taken in.
    pub expanded: int,
    /// Where the aggregate header stands, once it was written.
    pub header_path: Option<Seq<char>>,
    /// The final text, once the generator has exited.
    pub generated: Seq<char>,
    pub failure: Option<FailureText>,
    pub warnings: Seq<WarningText>,
}

/// The failure that a refused argument list stands for.
pub open spec fn failure_of(r: Rejection) -> FailureText {
    match r {
        Rejection::EmptyInvocation => FailureText::EmptyInvocation,
        Rejection::MalformedArgument { token, position } => FailureText::MalformedArgument {
            token,
            position,
        },
    }
}

/// The state before the argument list is known.
pub open spec fn initial(mode: LanguageMode) -> PipelineText {
    PipelineText {
        stage: Stage::Parsing,
        millis: 0,
        request: Invocation {
            headers: Seq::empty(),
            compiler_flags: Seq::empty(),
            generator_flags: Seq::empty(),
            link_names: Seq::empty(),
            shell_directives: Seq::empty(),
            language_mode: mode,
        },
        expanded: 0,
        header_path: None,
        generated: Seq::empty(),
        failure: None,
        warnings: Seq::empty(),
    }
}

/// The invocation fails with `f`: what remains is to clean up.
pub open spec fn fail(p: PipelineText, f: FailureText) -> (PipelineText, ActionText) {
    (
        PipelineText { stage: Stage::CleaningUp, failure: Some(f), ..p },
        ActionText::RemoveHeader { path: p.header_path },
    )
}

/// What follows once `p.expanded` shell directives were taken in: the next
/// directive, or the writing of the header when none is left.
pub open spec fn proceed(p: PipelineText) -> (PipelineText, ActionText) {
    if 0 <= p.expanded < p.request.shell_directives.len() {
        let directive = p.request.shell_directives[p.expanded];
        match shell_command_text(directive) {
            Some(cmd) => (PipelineText { stage: Stage::Expanding, ..p }, ActionText::RunShell(cmd)),
            None => fail(p, FailureText::ShellExpansionFailed { directive, exit_code: None }),
        }
    } else {
        (
            PipelineText { stage: Stage::Writing, ..p },
            ActionText::WriteHeader {
                file_name: file_name(p.request.headers, p.millis, p.request.language_mode),
                body: header_text(p.request.headers),
            },
        )
    }
}

/// Whether event `e` answers what state `p` is waiting for.
pub open spec fn accepts(p: PipelineText, e: EventText) -> bool {
    match p.stage {
        Stage::Parsing => e is Arguments,
        Stage::Expanding => (e is ShellOutput || e is ShellFailed) && 0 <= p.expanded
            < p.request.shell_directives.len(),
        Stage::Writing => e is HeaderWritten || e is HeaderWriteFailed,
        Stage::Invoking => e is GeneratorExited || e is GeneratorMissing,
        Stage::CleaningUp => e is HeaderRemoved || e is HeaderRemoveFailed,
        Stage::Done => false,
    }
}

/// The state after event `e` in state `p`, and the work to do next. An event
/// that `p` does not accept changes nothing.
pub open spec fn step_text(p: PipelineText, e: EventText) -> (PipelineText, ActionText) {
    if !accepts(p, e) {
        (p, ActionText::Finish)
    } else {
        match e {
            EventText::Arguments { input, millis } => {
                match classification(input, p.request.language_mode) {
                    Ok(request) => proceed(PipelineText { request, millis, expanded: 0, ..p }),
                    Err(r) => fail(PipelineText { millis, ..p }, failure_of(r)),
                }
            },
            EventText::ShellOutput { stdout } => proceed(
                PipelineText {
                    request: with_shell_output(p.request, stdout),
                    expanded: p.expanded + 1,
                    ..p
                },
            ),
            EventText::ShellFailed { exit_code } => fail(
                p,
                FailureText::ShellExpansionFailed {
                    directive: p.request.shell_directives[p.expanded],
                    exit_code,
                },
            ),
            EventText::HeaderWritten { path } => (
                PipelineText { stage: Stage::Invoking, header_path: Some(path), ..p },
                ActionText::RunGenerator(generator_command_text(path, p.request)),
            ),
            EventText::HeaderWriteFailed => fail(p, FailureText::TempFileWriteFailed),
            EventText::GeneratorExited { success, stdout, stderr } => (
                PipelineText {
                    stage: Stage::CleaningUp,
                    generated: generated_text(stdout, p.request.link_names),
                    warnings: if success {
                        p.warnings
                    } else {
                        p.warnings.push(WarningText::GeneratorNonZeroExit { stderr })
                    },
                    ..p
                },
                ActionText::RemoveHeader { path: p.header_path },
            ),
            EventText::GeneratorMissing => fail(p, FailureText::GeneratorNotFound),
            EventText::HeaderRemoved => (PipelineText { stage: Stage::Done, ..p }, ActionText::Finish),
            EventText::HeaderRemoveFailed => (
                PipelineText {
                    stage: Stage::Done,
                    warnings: p.warnings.push(WarningText::TempFileCleanupFailed),
                    ..p
                },
                ActionText::Finish,
            ),
        }
    }
}

/// The state of one invocation.
#[derive(Debug)]
pub struct Pipeline {
    stage: Stage,
    millis: u128,
    request: InvocationSpec,
    expanded: usize,
    header_path: Option<String>,
    generated: String,
    failure: Option<Failure>,
    warnings: Vec<Warning>,
}

/// The view of an optional failure.
pub open spec fn failure_view(f: Option<Failure>) -> Option<FailureText> {
    match f {
        Some(f) => Some(f@),
        None => None,
    }
}

impl View for Pipeline {
    type V = PipelineText;

    closed spec fn view(&self) -> PipelineText {
        PipelineText {
            stage: self.stage,
            millis: self.millis,
            request: self.request@,
            expanded: self.expanded as int,
            header_path: text_view(self.header_path),
            generated: self.generated@,
            failure: failure_view(self.failure),
            warnings: warning_texts(self.warnings@),
        }
    }
}

/// A copy of an optional string.
fn copy_text(s: &Option<String>) -> (r: Option<String>)
    ensures
        text_view(r) == text_view(*s),
{
    match s {
        Some(s) => Some(String::from_str(s.as_str())),
        None => None,
    }
}

/// The failure that a refused argument list stands for.
fn failure_from(e: ClassifyError) -> (f: Failure)
    ensures
        f@ == failure_of(e@),
{
    match e {
        ClassifyError::EmptyInvocation => Failure::EmptyInvocation,
        ClassifyError::MalformedArgument { token, position } => Failure::MalformedArgument {
            token,
            position,
        },
    }
}

impl Pipeline {
    /// The machine for one invocation in language `mode`, waiting for the
    /// argument list.
    pub fn new(mode: LanguageMode) -> (p: Pipeline)
        ensures
            p@ == initial(mode),
    {
        let p = Pipeline {
            stage: Stage::Parsing,
            millis: 0,
            request: InvocationSpec {
                headers: Vec::new(),
                compiler_flags: Vec::new(),
                generator_flags: Vec::new(),
                link_names: Vec::new(),
                shell_directives: Vec::new(),
                language_mode: mode,
            },
            expanded: 0,
            header_path: None,
            generated: String::new(),
            failure: None,
            warnings: Vec::new(),
        };
        assert(p@.request.headers =~= Seq::empty());
        assert(p@.request.compiler_flags =~= Seq::empty());
        assert(p@.request.generator_flags =~= Seq::empty());
        assert(p@.request.link_names =~= Seq::empty());
        assert(p@.request.shell_directives =~= Seq::empty());
        assert(p@.warnings =~= Seq::empty());
        p
    }

    /// What the machine is waiting for.
    pub fn stage(&self) -> (s: Stage)
        ensures
            s == self@.stage,
    {
        self.stage
    }

    /// What went wrong so far without costing the result, oldest first.
    pub fn warnings(&self) -> (w: &Vec<Warning>)
        ensures
            warning_texts(w@) == self@.warnings,
    {
        &self.warnings
    }

    /// Tests whether `event` answers what the machine is waiting for.
    pub fn accepts(&self, event: &Event) -> (r: bool)
        ensures
            r == accepts(self@, event@),
    {
        match self.stage {
            Stage::Parsing => matches!(event, Event::Arguments { .. }),
            Stage::Expanding => (matches!(event, Event::ShellOutput { .. }) || matches!(
                event,
                Event::ShellFailed { .. }
            )) && self.expanded < self.request.shell_directives.len(),
            Stage::Writing => matches!(event, Event::HeaderWritten { .. }) || matches!(
                event,
                Event::HeaderWriteFailed
            ),
            Stage::Invoking => matches!(event, Event::GeneratorExited { .. }) || matches!(
                event,
                Event::GeneratorMissing
            ),
            Stage::CleaningUp => matches!(event, Event::HeaderRemoved) || matches!(
                event,
                Event::HeaderRemoveFailed
            ),
            Stage::Done => false,
        }
    }

    /// Records the failure `f` and asks for the cleanup.
    fn fail(&mut self, f: Failure) -> (action: Action)
        ensures
            (final(self)@, action@) == fail(old(self)@, f@),
    {
        self.stage = Stage::CleaningUp;
        self.failure = Some(f);
        Action::RemoveHeader { path: copy_text(&self.header_path) }
    }

    /// Asks for the next shell directive, or for the header when none is left.
    fn proceed(&mut self) -> (action: Action)
        ensures
            (final(self)@, action@) == proceed(old(self)@),
    {
        if self.expanded < self.request.shell_directives.len() {
            let directive = String::from_str(self.request.shell_directives[self.expanded].as_str());
            assert(directive@ == self@.request.shell_directives[self@.expanded]);
            match shell_command(directive.as_str()) {
                Some(cmd) => {
                    self.stage = Stage::Expanding;
                    Action::RunShell(cmd)
                },
                None => self.fail(Failure::ShellExpansionFailed { directive, exit_code: None }),
            }
        } else {
            self.stage = Stage::Writing;
            Action::WriteHeader {
                file_name: header_file_name(
                    &self.request.headers,
                    self.millis,
                    self.request.language_mode,
                ),
                body: header_body(&self.request.headers),
            }
        }
    }

    /// Takes in `event` and returns the work to do next. An event that the
    /// machine is not waiting for changes nothing.
    ///
    /// A generator that exits without success costs a warning, not the
    /// result: what it printed is assembled into the final text all the same.
    pub fn step(&mut self, event: Event) -> (action: Action)
        ensures
            (final(self)@, action@) == step_text(old(self)@, event@),
    {
        if !self.accepts(&event) {
            return Action::Finish;
        }
        match event {
            Event::Arguments { input, millis } => {
                self.millis = millis;
                match classify(input.as_str(), self.request.language_mode) {
                    Ok(request) => {
                        self.request = request;
                        self.expanded = 0;
                        self.proceed()
                    },
                    Err(e) => self.fail(failure_from(e)),
                }
            },
            Event::ShellOutput { stdout } => {
                let done: usize = self.expanded;
                let count: usize = self.request.shell_directives.len();
                assert(done < count);
                append_shell_output(&mut self.request, stdout.as_str());
                self.expanded = done + 1;
                self.proceed()
            },
            Event::ShellFailed { exit_code } => {
                let directive = String::from_str(
                    self.request.shell_directives[self.expanded].as_str(),
                );
                self.fail(Failure::ShellExpansionFailed { directive, exit_code })
            },
            Event::HeaderWritten { path } => {
                let cmd = generator_command(path.as_str(), &self.request);
                self.stage = Stage::Invoking;
                self.header_path = Some(path);
                Action::RunGenerator(cmd)
            },
            Event::HeaderWriteFailed => self.fail(Failure::TempFileWriteFailed),
            Event::GeneratorExited { success, stdout, stderr } => {
                self.generated = assemble(stdout.as_str(), &self.request.link_names);
                if !success {
                    let ghost before = warning_texts(self.warnings@);
                    self.warnings.push(Warning::GeneratorNonZeroExit { stderr });
                    assert(warning_texts(self.warnings@) =~= before.push(
                        WarningText::GeneratorNonZeroExit { stderr: stderr@ },
                    ));
                }
                self.stage = Stage::CleaningUp;
                Action::RemoveHeader { path: copy_text(&self.header_path) }
            },
            Event::GeneratorMissing => self.fail(Failure::GeneratorNotFound),
            Event::HeaderRemoved => {
                self.stage = Stage::Done;
                Action::Finish
            },
            Event::HeaderRemoveFailed => {
                let ghost before = warning_texts(self.warnings@);
                self.warnings.push(Warning::TempFileCleanupFailed);
                assert(warning_texts(self.warnings@) =~= before.push(
                    WarningText::TempFileCleanupFailed,
                ));
                self.stage = Stage::Done;
                Action::Finish
            },
        }
    }

    /// The outcome of the invocation: the failure if there was one, else the
    /// final text.
    pub fn into_result(self) -> (r: Result<String, Failure>)
        ensures
            match self@.failure {
                Some(f) => r matches Err(e) && e@ == f,
                None => r matches Ok(text) && text@ == self@.generated,
            },
    {
        match self.failure {
            Some(f) => Err(f),
            None => Ok(self.generated),
        }
    }
}

/// Starts an invocation in language `mode` on the argument list `input`,
/// made at `millis` milliseconds.
fn start(mode: LanguageMode, input: String, millis: u128) -> (r: (Pipeline, Action))
    ensures
        (r.0@, r.1@) == step_text(initial(mode), EventText::Arguments { input: input@, millis }),
{
    let mut pipeline = Pipeline::new(mode);
    let action = pipeline.step(Event::Arguments { input, millis });
    (pipeline, action)
}

/// Starts the import of C headers: parses the argument list `input` of an
/// invocation made at `millis` milliseconds, and returns the machine with the
/// first work to do.
pub fn c_import(input: String, millis: u128) -> (r: (Pipeline, Action))
    ensures
        (r.0@, r.1@) == step_text(
            initial(LanguageMode::C),
            EventText::Arguments { input: input@, millis },
        ),
{
    start(LanguageMode::C, input, millis)
}

/// Starts the import of C++ headers: parses the argument list `input` of an
/// invocation made at `millis` milliseconds, and returns the machine with the
/// first work to do.
pub fn cpp_import(input: String, millis: u128) -> (r: (Pipeline, Action))
    ensures
        (r.0@, r.1@) == step_text(
            initial(LanguageMode::Cpp),
            EventText::Arguments { input: input@, millis },
        ),
{
    start(LanguageMode::Cpp, input, millis)
}

/// What holds of every state that the machine reaches: a header path is
/// known from `Invoking` on and not before, a failure is met only at the
/// cleanup or after it, and while expanding a directive is pending.
pub open spec fn consistent(p: PipelineText) -> bool {
    match p.stage {
        Stage::Parsing | Stage::Writing => p.header_path is None && p.failure is None,
        Stage::Expanding => {
            &&& p.header_path is None
            &&& p.failure is None
            &&& 0 <= p.expanded < p.request.shell_directives.len()
        },
        Stage::Invoking => p.header_path is Some && p.failure is None,
        Stage::CleaningUp | Stage::Done => true,
    }
}

/// A step leads from a consistent state to a consistent state.
pub proof fn lemma_step_keeps_consistent(p: PipelineText, e: EventText)
    requires
        consistent(p),
    ensures
        consistent(step_text(p, e).0),
{
}

/// The machine is over only after the cleanup: a step ends in `Done`
/// exactly when it answers the cleanup, and it enters the cleanup only with
/// the request to remove the header that is known by then.
pub proof fn lemma_done_only_after_cleanup(p: PipelineText, e: EventText)
    requires
        accepts(p, e),
    ensures
        step_text(p, e).0.stage is Done <==> p.stage is CleaningUp,
        step_text(p, e).0.stage is CleaningUp ==> step_text(p, e).1 == (ActionText::RemoveHeader {
            path: step_text(p, e).0.header_path,
        }),
{
}

/// A failure is final, and so is the header's path: no later step changes
/// either, nor does a step after a failure ask for anything but the cleanup.
pub proof fn lemma_failure_is_final(p: PipelineText, e: EventText)
    requires
        consistent(p),
    ensures
        p.failure is Some ==> step_text(p, e).0.failure == p.failure,
        p.header_path is Some ==> step_text(p, e).0.header_path == p.header_path,
        p.failure is Some ==> step_text(p, e).1 is Finish,
{
}

/// A generator that exits, with success or without, never fails the
/// invocation: what it printed opens the final text, and only its exit
/// without success adds a warning.
pub proof fn lemma_generator_exit_keeps_output(
    p: PipelineText,
    success: bool,
    stdout: Seq<char>,
    stderr: Seq<u8>,
)
    requires
        consistent(p),
        p.stage is Invoking,
    ensures
        ({
            let q = step_text(p, EventText::GeneratorExited { success, stdout, stderr }).0;
            &&& q.failure is None
            &&& q.generated == generated_text(stdout, p.request.link_names)
            &&& q.generated.take(stdout.len() as int) == stdout
            &&& success ==> q.warnings == p.warnings
            &&& !success ==> q.warnings == p.warnings.push(
                WarningText::GeneratorNonZeroExit { stderr },
            )
        }),
{
    crate::assemble::lemma_output_is_kept(stdout, p.request.link_names);
}

/// The state after the events `events` in state `p`, each taken in turn,
/// and the actions that the steps asked for.
pub open spec fn run(p: PipelineText, events: Seq<EventText>) -> (PipelineText, Seq<ActionText>)
    decreases events.len(),
{
    if events.len() == 0 {
        (p, Seq::<ActionText>::empty())
    } else {
        let (q, actions) = run(p, events.drop_last());
        let (r, action) = step_text(q, events.last());
        (r, actions.push(action))
    }
}

/// Whether the removal of the header at `path` is among `actions`.
pub open spec fn asks_removal(actions: Seq<ActionText>, path: Option<Seq<char>>) -> bool {
    exists|i: int| 0 <= i < actions.len() && actions[i] == (ActionText::RemoveHeader { path })
}

/// Every exit cleans up. Whatever the events, a machine that has left the
/// stages before the cleanup has asked for the removal of the header it
/// knows of; so one that is `Done` has, whether it ends with a text or with
/// a failure.
pub proof fn lemma_every_exit_cleans_up(mode: LanguageMode, events: Seq<EventText>)
    ensures
        consistent(run(initial(mode), events).0),
        run(initial(mode), events).0.stage is CleaningUp || run(initial(mode), events).0.stage is Done
            ==> asks_removal(run(initial(mode), events).1, run(initial(mode), events).0.header_path),
    decreases events.len(),
{
    if events.len() > 0 {
        let front = events.drop_last();
        lemma_every_exit_cleans_up(mode, front);
        let (q, actions) = run(initial(mode), front);
        let (r, action) = step_text(q, events.last());
        let all = actions.push(action);
        lemma_step_keeps_consistent(q, events.last());
        if r.stage is CleaningUp || r.stage is Done {
            if q.stage is CleaningUp || q.stage is Done {
                let i = choose|i: int|
                    0 <= i < actions.len() && actions[i] == (ActionText::RemoveHeader {
                        path: q.header_path,
                    });
                assert(all[i] == actions[i]);
                assert(r.header_path == q.header_path);
            } else {
                assert(accepts(q, events.last()));
                assert(all[actions.len() as int] == action);
                assert(action == (ActionText::RemoveHeader { path: r.header_path }));
            }
        }
    }
}

} // verus!
