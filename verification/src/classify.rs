//! Sorts the arguments of one invocation into headers, compiler flags,
//! generator flags, link names and shell directives.

use crate::text::{
    char_is_space, chars_of, is_space, pieces, remove_char, slice_of, split, split_words,
    string_of, texts, trim, trimmed, views, without, words,
};
use vstd::prelude::*;

verus! {

/// The language the requested headers are written in.
#[derive(Clone, Copy, Debug, PartialEq, Eq, Structural)]
pub enum LanguageMode {
    C,
    Cpp,
}

/// What one argument asks for, as mathematical text.
pub enum Token {
    /// Link against the named library.
    Link(Seq<char>),
    /// A flag for the generator itself.
    GeneratorFlag(Seq<char>),
    /// A flag for the compiler front end.
    CompilerFlag(Seq<char>),
    /// A header searched on the system paths; holds the text between the angle brackets.
    SystemHeader(Seq<char>),
    /// A command whose output supplies further compiler flags.
    Shell(Seq<char>),
    /// A header named by a path.
    LocalHeader(Seq<char>),
}

/// What one argument asks for.
#[derive(Debug)]
pub enum Argument {
    Link(String),
    GeneratorFlag(String),
    CompilerFlag(String),
    SystemHeader(String),
    Shell(String),
    LocalHeader(String),
}

impl View for Argument {
    type V = Token;

    open spec fn view(&self) -> Token {
        match self {
            Argument::Link(s) => Token::Link(s@),
            Argument::GeneratorFlag(s) => Token::GeneratorFlag(s@),
            Argument::CompilerFlag(s) => Token::CompilerFlag(s@),
            Argument::SystemHeader(s) => Token::SystemHeader(s@),
            Argument::Shell(s) => Token::Shell(s@),
            Argument::LocalHeader(s) => Token::LocalHeader(s@),
        }
    }
}

/// `t` without one pair of surrounding double quotes, if it has one.
pub open spec fn strip_quotes(t: Seq<char>) -> Seq<char> {
    if t.len() >= 2 && t[0] == '"' && t.last() == '"' {
        t.subrange(1, t.len() - 1)
    } else {
        t
    }
}

/// The marker that introduces a link name.
pub open spec fn link_marker() -> Seq<char> {
    seq!['-', '-', 'l', 'i', 'n', 'k']
}

/// Whether `u` is the link marker, alone or followed by white space.
pub open spec fn is_link(u: Seq<char>) -> bool {
    u.len() >= 6 && u.take(6) == link_marker() && (u.len() == 6 || is_space(u[6]))
}

/// The text of the flag `u`: double quotes inside it are dropped, and so is
/// white space at its ends.
pub open spec fn flag_text(u: Seq<char>) -> Seq<char> {
    trimmed(without(u, '"'))
}

/// The meaning of one trimmed argument `t`, or `None` where it has none.
///
/// The test is made on the text inside the surrounding quotes. A blank text
/// is malformed. A text that starts with a dash is the link marker with a
/// name, or else a flag: for the generator with two dashes, for the compiler
/// with one. Double quotes inside a flag are dropped; anywhere else they make
/// the argument malformed. So do a link marker without a name, an angle
/// bracket that is not closed round a name, and a `$` without a command.
pub open spec fn token_of(t: Seq<char>) -> Option<Token> {
    let u = strip_quotes(t);
    let f = trimmed(u);
    if f.len() == 0 {
        None
    } else if is_link(u) {
        let name = trimmed(u.skip(6));
        if name.len() == 0 || u.contains('"') {
            None
        } else {
            Some(Token::Link(name))
        }
    } else if u[0] == '-' && u.len() >= 2 && u[1] == '-' {
        Some(Token::GeneratorFlag(flag_text(u)))
    } else if u[0] == '-' {
        Some(Token::CompilerFlag(flag_text(u)))
    } else if u.contains('"') {
        None
    } else if u[0] == '<' {
        if f.len() >= 3 && f.last() == '>' {
            Some(Token::SystemHeader(f.subrange(1, f.len() - 1)))
        } else {
            None
        }
    } else if u[0] == '$' {
        if words(u.skip(1)).len() == 0 {
            None
        } else {
            Some(Token::Shell(u.skip(1)))
        }
    } else {
        Some(Token::LocalHeader(u))
    }
}

/// The view of an optional argument.
pub open spec fn token_view(a: Option<Argument>) -> Option<Token> {
    match a {
        Some(a) => Some(a@),
        None => None,
    }
}

/// Tests whether `c` occurs in `v`.
pub fn contains_char(v: &Vec<char>, c: char) -> (r: bool)
    ensures
        r == v@.contains(c),
{
    let mut i: usize = 0;
    while i < v.len()
        invariant
            i <= v.len(),
            forall|j: int| 0 <= j < i ==> v@[j] != c,
        decreases v.len() - i,
    {
        if v[i] == c {
            return true;
        }
        i = i + 1;
    }
    false
}

/// Tests whether `u` is the link marker, alone or followed by white space.
pub fn starts_link(u: &Vec<char>) -> (r: bool)
    ensures
        r == is_link(u@),
{
    if u.len() < 6 {
        return false;
    }
    let m = u[0] == '-' && u[1] == '-' && u[2] == 'l' && u[3] == 'i' && u[4] == 'n' && u[5]
        == 'k';
    proof {
        if m {
            assert(u@.take(6) =~= link_marker());
        } else {
            let p = u@.take(6);
            assert(p[0] == u@[0] && p[1] == u@[1] && p[2] == u@[2] && p[3] == u@[3] && p[4]
                == u@[4] && p[5] == u@[5]);
        }
    }
    m && (u.len() == 6 || char_is_space(u[6]))
}

/// Decides what the trimmed argument `t` asks for.
pub fn classify_token(t: &Vec<char>) -> (r: Option<Argument>)
    ensures
        token_view(r) == token_of(t@),
{
    let n: usize = t.len();
    let u: Vec<char> = if n >= 2 && t[0] == '"' && t[n - 1] == '"' {
        slice_of(t, 1, n - 1)
    } else {
        slice_of(t, 0, n)
    };
    assert(u@ =~= strip_quotes(t@));
    let f: Vec<char> = trim(&u);
    if f.len() == 0 {
        return None;
    }
    assert(u@.len() > 0) by {
        if u@.len() == 0 {
            assert(trimmed(u@) =~= u@);
        }
    }
    if starts_link(&u) {
        let rest = slice_of(&u, 6, u.len());
        assert(rest@ =~= u@.skip(6));
        let name = trim(&rest);
        if name.len() == 0 || contains_char(&u, '"') {
            None
        } else {
            Some(Argument::Link(string_of(&name)))
        }
    } else if u[0] == '-' && u.len() >= 2 && u[1] == '-' {
        let flag = trim(&remove_char(&u, '"'));
        Some(Argument::GeneratorFlag(string_of(&flag)))
    } else if u[0] == '-' {
        let flag = trim(&remove_char(&u, '"'));
        Some(Argument::CompilerFlag(string_of(&flag)))
    } else if contains_char(&u, '"') {
        None
    } else if u[0] == '<' {
        if f.len() >= 3 && f[f.len() - 1] == '>' {
            let name = slice_of(&f, 1, f.len() - 1);
            Some(Argument::SystemHeader(string_of(&name)))
        } else {
            None
        }
    } else if u[0] == '$' {
        let rest = slice_of(&u, 1, u.len());
        assert(rest@ =~= u@.skip(1));
        let w = split_words(&rest);
        assert(w@.len() == crate::text::views(w@).len());
        if w.len() == 0 {
            None
        } else {
            Some(Argument::Shell(string_of(&rest)))
        }
    } else {
        Some(Argument::LocalHeader(string_of(&u)))
    }
}

/// A header reference as mathematical text.
pub enum HeaderText {
    /// Written between angle brackets.
    System(Seq<char>),
    /// Written between double quotes.
    Local(Seq<char>),
}

/// A header reference.
#[derive(Debug)]
pub enum Header {
    /// Written between angle brackets.
    System(String),
    /// Written between double quotes.
    Local(String),
}

impl View for Header {
    type V = HeaderText;

    open spec fn view(&self) -> HeaderText {
        match self {
            Header::System(s) => HeaderText::System(s@),
            Header::Local(s) => HeaderText::Local(s@),
        }
    }
}

/// The views of a sequence of headers.
pub open spec fn header_texts(v: Seq<Header>) -> Seq<HeaderText> {
    v.map_values(|h: Header| h@)
}

/// The request of one invocation, as mathematical text.
pub struct Invocation {
    pub headers: Seq<HeaderText>,
    pub compiler_flags: Seq<Seq<char>>,
    pub generator_flags: Seq<Seq<char>>,
    pub link_names: Seq<Seq<char>>,
    pub shell_directives: Seq<Seq<char>>,
    pub language_mode: LanguageMode,
}

/// The request of one invocation.
#[derive(Debug)]
pub struct InvocationSpec {
    pub headers: Vec<Header>,
    pub compiler_flags: Vec<String>,
    pub generator_flags: Vec<String>,
    pub link_names: Vec<String>,
    pub shell_directives: Vec<String>,
    pub language_mode: LanguageMode,
}

impl View for InvocationSpec {
    type V = Invocation;

    open spec fn view(&self) -> Invocation {
        Invocation {
            headers: header_texts(self.headers@),
            compiler_flags: texts(self.compiler_flags@),
            generator_flags: texts(self.generator_flags@),
            link_names: texts(self.link_names@),
            shell_directives: texts(self.shell_directives@),
            language_mode: self.language_mode,
        }
    }
}

/// Why an argument list was refused.
#[derive(Debug)]
pub enum ClassifyError {
    /// The list holds no argument at all.
    EmptyInvocation,
    /// The argument at `position` (counted from zero) has no meaning.
    MalformedArgument { token: String, position: usize },
}

/// Why an argument list was refused, as mathematical text.
pub enum Rejection {
    EmptyInvocation,
    MalformedArgument { token: Seq<char>, position: int },
}

impl View for ClassifyError {
    type V = Rejection;

    open spec fn view(&self) -> Rejection {
        match self {
            ClassifyError::EmptyInvocation => Rejection::EmptyInvocation,
            ClassifyError::MalformedArgument { token, position } => Rejection::MalformedArgument {
                token: token@,
                position: *position as int,
            },
        }
    }
}

/// The arguments of `input`: its pieces between commas, each trimmed.
pub open spec fn arguments(input: Seq<char>) -> Seq<Seq<char>> {
    pieces(input, ',').map_values(|p: Seq<char>| trimmed(p))
}

/// Whether every argument has a meaning.
pub open spec fn well_formed(args: Seq<Seq<char>>) -> bool {
    forall|i: int| 0 <= i < args.len() ==> (#[trigger] token_of(args[i])) is Some
}

/// The header that argument `a` names, if it names one.
pub open spec fn header_in(a: Seq<char>) -> Option<HeaderText> {
    match token_of(a) {
        Some(Token::SystemHeader(n)) => Some(HeaderText::System(n)),
        Some(Token::LocalHeader(p)) => Some(HeaderText::Local(p)),
        _ => None,
    }
}

/// The compiler flag that argument `a` is, if it is one.
pub open spec fn compiler_flag_in(a: Seq<char>) -> Option<Seq<char>> {
    match token_of(a) {
        Some(Token::CompilerFlag(f)) => Some(f),
        _ => None,
    }
}

/// The generator flag that argument `a` is, if it is one.
pub open spec fn generator_flag_in(a: Seq<char>) -> Option<Seq<char>> {
    match token_of(a) {
        Some(Token::GeneratorFlag(f)) => Some(f),
        _ => None,
    }
}

/// The link name that argument `a` gives, if it gives one.
pub open spec fn link_name_in(a: Seq<char>) -> Option<Seq<char>> {
    match token_of(a) {
        Some(Token::Link(n)) => Some(n),
        _ => None,
    }
}

/// The shell command that argument `a` gives, if it gives one.
pub open spec fn shell_directive_in(a: Seq<char>) -> Option<Seq<char>> {
    match token_of(a) {
        Some(Token::Shell(c)) => Some(c),
        _ => None,
    }
}

/// The headers among `args`, in order.
pub open spec fn headers_of(args: Seq<Seq<char>>) -> Seq<HeaderText> {
    args.filter_map(|a: Seq<char>| header_in(a))
}

/// The compiler flags among `args`, in order.
pub open spec fn compiler_flags_of(args: Seq<Seq<char>>) -> Seq<Seq<char>> {
    args.filter_map(|a: Seq<char>| compiler_flag_in(a))
}

/// The generator flags among `args`, in order.
pub open spec fn generator_flags_of(args: Seq<Seq<char>>) -> Seq<Seq<char>> {
    args.filter_map(|a: Seq<char>| generator_flag_in(a))
}

/// The link names among `args`, in order.
pub open spec fn link_names_of(args: Seq<Seq<char>>) -> Seq<Seq<char>> {
    args.filter_map(|a: Seq<char>| link_name_in(a))
}

/// The shell commands among `args`, in order.
pub open spec fn shell_directives_of(args: Seq<Seq<char>>) -> Seq<Seq<char>> {
    args.filter_map(|a: Seq<char>| shell_directive_in(a))
}

/// The request that the arguments `args` make in language `mode`.
pub open spec fn invocation_of(args: Seq<Seq<char>>, mode: LanguageMode) -> Invocation {
    Invocation {
        headers: headers_of(args),
        compiler_flags: compiler_flags_of(args),
        generator_flags: generator_flags_of(args),
        link_names: link_names_of(args),
        shell_directives: shell_directives_of(args),
        language_mode: mode,
    }
}

/// What one more argument adds to each bucket.
pub proof fn lemma_buckets_step(args: Seq<Seq<char>>, a: Seq<char>)
    ensures
        headers_of(args.push(a)) == match header_in(a) {
            Some(h) => headers_of(args).push(h),
            None => headers_of(args),
        },
        compiler_flags_of(args.push(a)) == match compiler_flag_in(a) {
            Some(f) => compiler_flags_of(args).push(f),
            None => compiler_flags_of(args),
        },
        generator_flags_of(args.push(a)) == match generator_flag_in(a) {
            Some(f) => generator_flags_of(args).push(f),
            None => generator_flags_of(args),
        },
        link_names_of(args.push(a)) == match link_name_in(a) {
            Some(n) => link_names_of(args).push(n),
            None => link_names_of(args),
        },
        shell_directives_of(args.push(a)) == match shell_directive_in(a) {
            Some(c) => shell_directives_of(args).push(c),
            None => shell_directives_of(args),
        },
{
    let more = args.push(a);
    assert(more.drop_last() =~= args);
    assert(more.last() == a);
    match header_in(a) {
        Some(h) => assert(headers_of(args) + seq![h] =~= headers_of(args).push(h)),
        None => {},
    }
    match compiler_flag_in(a) {
        Some(f) => assert(compiler_flags_of(args) + seq![f] =~= compiler_flags_of(args).push(f)),
        None => {},
    }
    match generator_flag_in(a) {
        Some(f) => assert(generator_flags_of(args) + seq![f] =~= generator_flags_of(args).push(
            f,
        )),
        None => {},
    }
    match link_name_in(a) {
        Some(n) => assert(link_names_of(args) + seq![n] =~= link_names_of(args).push(n)),
        None => {},
    }
    match shell_directive_in(a) {
        Some(c) => assert(shell_directives_of(args) + seq![c] =~= shell_directives_of(args).push(
            c,
        )),
        None => {},
    }
}

/// The position of the first argument without a meaning, or the number of
/// arguments where each has one.
pub open spec fn first_malformed(args: Seq<Seq<char>>) -> int
    decreases args.len(),
{
    if args.len() == 0 || token_of(args[0]) is None {
        0
    } else {
        1 + first_malformed(args.drop_first())
    }
}

/// What parsing the argument list `input` in language `mode` gives.
pub open spec fn classification(input: Seq<char>, mode: LanguageMode) -> Result<
    Invocation,
    Rejection,
> {
    let args = arguments(input);
    let k = first_malformed(args);
    if trimmed(input).len() == 0 {
        Err(Rejection::EmptyInvocation)
    } else if k < args.len() {
        Err(Rejection::MalformedArgument { token: args[k], position: k })
    } else {
        Ok(invocation_of(args, mode))
    }
}

/// The view of the outcome of parsing.
pub open spec fn outcome_view(r: Result<InvocationSpec, ClassifyError>) -> Result<
    Invocation,
    Rejection,
> {
    match r {
        Ok(spec) => Ok(spec@),
        Err(e) => Err(e@),
    }
}

/// If the first `k` arguments have a meaning and the next one, if there is
/// one, has none, then `k` is the position of the first malformed argument.
pub proof fn lemma_first_malformed(args: Seq<Seq<char>>, k: int)
    requires
        0 <= k <= args.len(),
        well_formed(args.take(k)),
        k == args.len() || token_of(args[k]) is None,
    ensures
        first_malformed(args) == k,
    decreases k,
{
    if k > 0 {
        assert(args.take(k)[0] == args[0]);
        assert(token_of(args[0]) is Some);
        let rest = args.drop_first();
        assert forall|i: int| 0 <= i < rest.take(k - 1).len() implies (#[trigger] token_of(
            rest.take(k - 1)[i],
        )) is Some by {
            assert(rest.take(k - 1)[i] == args.take(k)[i + 1]);
        }
        lemma_first_malformed(rest, k - 1);
    }
}

/// How many of the five buckets argument `a` lands in.
pub open spec fn bucket_count(a: Seq<char>) -> int {
    (if header_in(a) is Some { 1int } else { 0 }) + (if compiler_flag_in(a) is Some { 1int } else { 0 })
        + (if generator_flag_in(a) is Some { 1int } else { 0 }) + (if link_name_in(a) is Some { 1int } else { 0 })
        + (if shell_directive_in(a) is Some { 1int } else { 0 })
}

/// The buckets partition the arguments: an argument with a meaning lands in
/// exactly one of the five buckets, so the buckets together hold as many
/// entries as there are arguments. Each bucket is the list of arguments
/// filtered by kind, so it keeps their order.
pub proof fn lemma_buckets_partition(args: Seq<Seq<char>>)
    requires
        well_formed(args),
    ensures
        forall|i: int| 0 <= i < args.len() ==> bucket_count(#[trigger] args[i]) == 1,
        headers_of(args).len() + compiler_flags_of(args).len() + generator_flags_of(args).len()
            + link_names_of(args).len() + shell_directives_of(args).len() == args.len(),
    decreases args.len(),
{
    assert forall|i: int| 0 <= i < args.len() implies bucket_count(#[trigger] args[i]) == 1 by {
        assert(token_of(args[i]) is Some);
    }
    if args.len() > 0 {
        let front = args.drop_last();
        assert forall|i: int| 0 <= i < front.len() implies (#[trigger] token_of(front[i])) is Some by {
            assert(front[i] == args[i]);
        }
        lemma_buckets_partition(front);
        lemma_buckets_step(front, args.last());
        assert(front.push(args.last()) =~= args);
        assert(bucket_count(args[args.len() - 1]) == 1);
    }
}

/// Parses the comma-separated argument list `input` of an invocation in
/// language `mode`.
///
/// A blank list is refused as empty. Otherwise the first argument without a
/// meaning is reported with its position; if there is none, each argument
/// lands in exactly one bucket, and each bucket keeps the order of the list.
pub fn classify(input: &str, mode: LanguageMode) -> (r: Result<InvocationSpec, ClassifyError>)
    ensures
        outcome_view(r) == classification(input@, mode),
        match r {
            Ok(spec) => {
                &&& trimmed(input@).len() > 0
                &&& well_formed(arguments(input@))
                &&& spec@ == invocation_of(arguments(input@), mode)
            },
            Err(ClassifyError::EmptyInvocation) => trimmed(input@).len() == 0,
            Err(ClassifyError::MalformedArgument { token, position }) => {
                &&& trimmed(input@).len() > 0
                &&& position < arguments(input@).len()
                &&& token@ == arguments(input@)[position as int]
                &&& token_of(arguments(input@)[position as int]) is None
                &&& well_formed(arguments(input@).take(position as int))
            },
        },
{
    let chars = chars_of(input);
    if trim(&chars).len() == 0 {
        return Err(ClassifyError::EmptyInvocation);
    }
    let parts = split(&chars, ',');
    let ghost args = arguments(input@);
    assert(args.len() == parts@.len()) by {
        assert(views(parts@).len() == parts@.len());
    }
    let mut spec = InvocationSpec {
        headers: Vec::new(),
        compiler_flags: Vec::new(),
        generator_flags: Vec::new(),
        link_names: Vec::new(),
        shell_directives: Vec::new(),
        language_mode: mode,
    };
    let mut i: usize = 0;
    assert(spec@ =~= invocation_of(args.take(0), mode)) by {
        assert(args.take(0) =~= Seq::<Seq<char>>::empty());
        assert(spec@.headers =~= headers_of(args.take(0)));
        assert(spec@.compiler_flags =~= compiler_flags_of(args.take(0)));
        assert(spec@.generator_flags =~= generator_flags_of(args.take(0)));
        assert(spec@.link_names =~= link_names_of(args.take(0)));
        assert(spec@.shell_directives =~= shell_directives_of(args.take(0)));
    }
    while i < parts.len()
        invariant
            i <= parts.len(),
            trimmed(input@).len() > 0,
            args == arguments(input@),
            args.len() == parts@.len(),
            views(parts@) == pieces(input@, ','),
            well_formed(args.take(i as int)),
            spec@ == invocation_of(args.take(i as int), mode),
        decreases parts.len() - i,
    {
        let t = trim(&parts[i]);
        assert(t@ == args[i as int]) by {
            assert(views(parts@)[i as int] == parts@[i as int]@);
        }
        let ghost before = args.take(i as int);
        let ghost old_spec = spec@;
        proof {
            lemma_buckets_step(before, t@);
            assert(before.push(t@) =~= args.take(i + 1));
        }
        match classify_token(&t) {
            None => {
                proof {
                    lemma_first_malformed(args, i as int);
                }
                return Err(ClassifyError::MalformedArgument { token: string_of(&t), position: i });
            },
            Some(Argument::Link(name)) => {
                spec.link_names.push(name);
                assert(spec@.link_names =~= old_spec.link_names.push(name@));
            },
            Some(Argument::GeneratorFlag(flag)) => {
                spec.generator_flags.push(flag);
                assert(spec@.generator_flags =~= old_spec.generator_flags.push(flag@));
            },
            Some(Argument::CompilerFlag(flag)) => {
                spec.compiler_flags.push(flag);
                assert(spec@.compiler_flags =~= old_spec.compiler_flags.push(flag@));
            },
            Some(Argument::SystemHeader(name)) => {
                spec.headers.push(Header::System(name));
                assert(spec@.headers =~= old_spec.headers.push(HeaderText::System(name@)));
            },
            Some(Argument::Shell(command)) => {
                spec.shell_directives.push(command);
                assert(spec@.shell_directives =~= old_spec.shell_directives.push(command@));
            },
            Some(Argument::LocalHeader(path)) => {
                spec.headers.push(Header::Local(path));
                assert(spec@.headers =~= old_spec.headers.push(HeaderText::Local(path@)));
            },
        }
        assert(well_formed(args.take(i + 1))) by {
            assert forall|j: int| 0 <= j < args.take(i + 1).len() implies (#[trigger] token_of(
                args.take(i + 1)[j],
            )) is Some by {
                if j < i {
                    assert(args.take(i + 1)[j] == before[j]);
                }
            }
        }
        i = i + 1;
    }
    assert(args.take(parts.len() as int) =~= args);
    proof {
        lemma_first_malformed(args, args.len() as int);
    }
    Ok(spec)
}

} // verus!
