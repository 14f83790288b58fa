//! The command lines that one invocation runs: the generator's, and those of
//! the shell directives whose output supplies further compiler flags.

use crate::classify::{Invocation, InvocationSpec, LanguageMode};
use crate::text::{extend_texts, push_text, texts, words, words_of};
use vstd::prelude::*;
use vstd::string::StringExecFns;

verus! {

/// A program and its arguments, as mathematical text.
pub struct CommandText {
    pub program: Seq<char>,
    pub args: Seq<Seq<char>>,
}

/// A program and its arguments.
#[derive(Debug)]
pub struct CommandLine {
    pub program: String,
    pub args: Vec<String>,
}

impl View for CommandLine {
    type V = CommandText;

    open spec fn view(&self) -> CommandText {
        CommandText { program: self.program@, args: texts(self.args@) }
    }
}

/// The name of the generator's program.
pub open spec fn generator_program() -> Seq<char> {
    "bindgen"@
}

/// The argument after which the generator hands everything to the compiler
/// front end.
pub open spec fn separator() -> Seq<char> {
    "--"@
}

/// The generator flags that every invocation in language `mode` starts with.
pub open spec fn generator_baseline(mode: LanguageMode) -> Seq<Seq<char>> {
    match mode {
        LanguageMode::C => seq![
            "--use-core"@,
            "--no-layout-tests"@,
            "--no-doc-comments"@,
            "--no-prepend-enum-name"@,
            "--disable-header-comment"@,
        ],
        LanguageMode::Cpp => seq![
            "--use-core"@,
            "--generate-inline-functions"@,
            "--no-layout-tests"@,
            "--no-doc-comments"@,
            "--no-prepend-enum-name"@,
            "--disable-header-comment"@,
        ],
    }
}

/// The compiler flags that every invocation in language `mode` starts with.
pub open spec fn compiler_baseline(mode: LanguageMode) -> Seq<Seq<char>> {
    match mode {
        LanguageMode::C => seq!["-std=c17"@, "-w"@, "-I."@],
        LanguageMode::Cpp => seq!["-xc++"@, "-w"@, "-std=c++17"@, "-I."@],
    }
}

/// Everything the generator is told about itself: the baseline, then the
/// request's own generator flags.
pub open spec fn generator_side(inv: Invocation) -> Seq<Seq<char>> {
    generator_baseline(inv.language_mode) + inv.generator_flags
}

/// Everything handed on to the compiler front end: the baseline, then the
/// request's own compiler flags.
pub open spec fn compiler_side(inv: Invocation) -> Seq<Seq<char>> {
    compiler_baseline(inv.language_mode) + inv.compiler_flags
}

/// The generator's command line for the header at `path`: the header, the
/// generator's arguments, the separator, the compiler's arguments.
pub open spec fn command_text(
    path: Seq<char>,
    generator_args: Seq<Seq<char>>,
    compiler_args: Seq<Seq<char>>,
) -> CommandText {
    CommandText {
        program: generator_program(),
        args: seq![path] + generator_args + seq![separator()] + compiler_args,
    }
}

/// The generator's command line for the header at `path` and the request
/// `inv`: the header, the generator's side, the separator, the compiler's side.
pub open spec fn generator_command_text(path: Seq<char>, inv: Invocation) -> CommandText {
    command_text(path, generator_side(inv), compiler_side(inv))
}

/// Assembles the generator's command line from the header's path and the two
/// lists of arguments, each complete and in order.
pub fn gen_command(
    header_path: &str,
    generator_args: &Vec<String>,
    compiler_args: &Vec<String>,
) -> (cmd: CommandLine)
    ensures
        cmd@ == command_text(header_path@, texts(generator_args@), texts(compiler_args@)),
{
    let mut args: Vec<String> = Vec::new();
    push_text(&mut args, header_path);
    assert(texts(args@) =~= seq![header_path@]);
    extend_texts(&mut args, generator_args);
    push_text(&mut args, "--");
    extend_texts(&mut args, compiler_args);
    assert(texts(args@) =~= command_text(
        header_path@,
        texts(generator_args@),
        texts(compiler_args@),
    ).args);
    CommandLine { program: String::from_str("bindgen"), args }
}

/// Appends the baseline generator flags of `mode` to `args`.
fn push_generator_baseline(args: &mut Vec<String>, mode: LanguageMode)
    ensures
        texts(final(args)@) == texts(old(args)@) + generator_baseline(mode),
{
    push_text(args, "--use-core");
    match mode {
        LanguageMode::C => {},
        LanguageMode::Cpp => {
            push_text(args, "--generate-inline-functions");
        },
    }
    push_text(args, "--no-layout-tests");
    push_text(args, "--no-doc-comments");
    push_text(args, "--no-prepend-enum-name");
    push_text(args, "--disable-header-comment");
    assert(texts(args@) =~= texts(old(args)@) + generator_baseline(mode));
}

/// Appends the baseline compiler flags of `mode` to `args`.
fn push_compiler_baseline(args: &mut Vec<String>, mode: LanguageMode)
    ensures
        texts(final(args)@) == texts(old(args)@) + compiler_baseline(mode),
{
    match mode {
        LanguageMode::C => {
            push_text(args, "-std=c17");
            push_text(args, "-w");
        },
        LanguageMode::Cpp => {
            push_text(args, "-xc++");
            push_text(args, "-w");
            push_text(args, "-std=c++17");
        },
    }
    push_text(args, "-I.");
    assert(texts(args@) =~= texts(old(args)@) + compiler_baseline(mode));
}

/// Assembles the generator's command line for the header at `header_path`
/// and the request `spec`: on each side of the separator the baseline of the
/// language comes first, then the request's own flags.
pub fn generator_command(header_path: &str, spec: &InvocationSpec) -> (cmd: CommandLine)
    ensures
        cmd@ == generator_command_text(header_path@, spec@),
{
    let mut generator_args: Vec<String> = Vec::new();
    push_generator_baseline(&mut generator_args, spec.language_mode);
    extend_texts(&mut generator_args, &spec.generator_flags);
    assert(texts(generator_args@) =~= generator_side(spec@));
    let mut compiler_args: Vec<String> = Vec::new();
    push_compiler_baseline(&mut compiler_args, spec.language_mode);
    extend_texts(&mut compiler_args, &spec.compiler_flags);
    assert(texts(compiler_args@) =~= compiler_side(spec@));
    gen_command(header_path, &generator_args, &compiler_args)
}

/// In the generator's command line the separator stands right after the
/// generator's side, and what follows it is exactly the compiler's side: no
/// compiler flag reaches the generator, and none is lost.
pub proof fn lemma_separator_divides(path: Seq<char>, inv: Invocation)
    ensures
        ({
            let args = generator_command_text(path, inv).args;
            let k: int = generator_side(inv).len() as int + 1;
            &&& args.len() == k + 1 + compiler_side(inv).len()
            &&& args[0] == path
            &&& args.subrange(1, k) == generator_side(inv)
            &&& args[k] == separator()
            &&& args.skip(k + 1) == compiler_side(inv)
        }),
{
    let args = generator_command_text(path, inv).args;
    let k: int = generator_side(inv).len() as int + 1;
    assert(args.subrange(1, k) =~= generator_side(inv));
    assert(args.skip(k + 1) =~= compiler_side(inv));
}

/// The command that the shell directive `directive` runs: its first word is
/// the program, the other words are the arguments. A blank directive runs
/// nothing.
pub open spec fn shell_command_text(directive: Seq<char>) -> Option<CommandText> {
    let w = words(directive);
    if w.len() == 0 {
        None
    } else {
        Some(CommandText { program: w[0], args: w.skip(1) })
    }
}

/// The view of an optional command line.
pub open spec fn command_view(c: Option<CommandLine>) -> Option<CommandText> {
    match c {
        Some(c) => Some(c@),
        None => None,
    }
}

/// Splits a shell directive into program and arguments, at white space alone:
/// no quoting and no expansion is applied.
pub fn shell_command(directive: &str) -> (cmd: Option<CommandLine>)
    ensures
        command_view(cmd) == shell_command_text(directive@),
{
    let w = words_of(directive);
    assert(texts(w@).len() == w@.len());
    if w.len() == 0 {
        return None;
    }
    let program = String::from_str(w[0].as_str());
    let mut args: Vec<String> = Vec::new();
    let mut i: usize = 1;
    assert(texts(args@) =~= texts(w@).subrange(1, 1));
    while i < w.len()
        invariant
            1 <= i <= w.len(),
            texts(args@) == texts(w@).subrange(1, i as int),
        decreases w.len() - i,
    {
        push_text(&mut args, w[i].as_str());
        assert(texts(args@) =~= texts(w@).subrange(1, i + 1));
        i = i + 1;
    }
    assert(texts(w@).subrange(1, w.len() as int) =~= texts(w@).skip(1));
    Some(CommandLine { program, args })
}

/// The request `inv` after the output `stdout` of one of its shell
/// directives was taken in: the words of the output follow the compiler
/// flags that were there.
pub open spec fn with_shell_output(inv: Invocation, stdout: Seq<char>) -> Invocation {
    Invocation { compiler_flags: inv.compiler_flags + words(stdout), ..inv }
}

/// Takes the output of a shell directive into the request: each of its words
/// becomes one more compiler flag, in order, after those already there.
pub fn append_shell_output(spec: &mut InvocationSpec, stdout: &str)
    ensures
        final(spec)@ == with_shell_output(old(spec)@, stdout@),
{
    let flags = words_of(stdout);
    extend_texts(&mut spec.compiler_flags, &flags);
}

} // verus!
