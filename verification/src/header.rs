//! The aggregate header: its text and the name of the file that holds it.

use crate::classify::{header_texts, Header, HeaderText, LanguageMode};
use std::collections::hash_map::DefaultHasher;
use std::hash::Hasher;
use vstd::prelude::*;
use vstd::std_specs::hash::DefaultHasherAdditionalSpecFns;
use vstd::string::StringExecFns;
use vstd::utf8::encode_utf8;

verus! {

/// The line that pulls in header `h`, with its line feed.
pub open spec fn include_line(h: HeaderText) -> Seq<char> {
    match h {
        HeaderText::System(n) => "#include "@ + seq!['<'] + n + seq!['>', '\n'],
        HeaderText::Local(p) => "#include "@ + seq!['"'] + p + seq!['"', '\n'],
    }
}

/// One line per header of `hs`, in order.
pub open spec fn include_lines(hs: Seq<HeaderText>) -> Seq<char>
    decreases hs.len(),
{
    if hs.len() == 0 {
        Seq::<char>::empty()
    } else {
        include_lines(hs.drop_last()) + include_line(hs.last())
    }
}

/// The text of the aggregate header for `hs`.
pub open spec fn header_text(hs: Seq<HeaderText>) -> Seq<char> {
    "#pragma once\n"@ + include_lines(hs)
}

/// Appends to `out` one line per header.
fn push_include_lines(out: &mut String, headers: &Vec<Header>)
    ensures
        final(out)@ == old(out)@ + include_lines(header_texts(headers@)),
{
    let ghost hs = header_texts(headers@);
    let ghost start = out@;
    let mut i: usize = 0;
    assert(out@ =~= start + include_lines(hs.take(0)));
    while i < headers.len()
        invariant
            i <= headers.len(),
            hs == header_texts(headers@),
            out@ == start + include_lines(hs.take(i as int)),
        decreases headers.len() - i,
    {
        let ghost before = out@;
        assert(hs.take(i + 1).drop_last() =~= hs.take(i as int));
        assert(hs.take(i + 1).last() == headers@[i as int]@);
        out.append("#include ");
        match &headers[i] {
            Header::System(name) => {
                out.push('<');
                out.append(name.as_str());
                out.push('>');
                out.push('\n');
                assert(out@ =~= before + include_line(HeaderText::System(name@)));
            },
            Header::Local(path) => {
                out.push('"');
                out.append(path.as_str());
                out.push('"');
                out.push('\n');
                assert(out@ =~= before + include_line(HeaderText::Local(path@)));
            },
        }
        assert(out@ =~= start + include_lines(hs.take(i + 1)));
        i = i + 1;
    }
    assert(hs.take(headers.len() as int) =~= hs);
}

/// Builds the text of the aggregate header: a once-only guard, then one line
/// per header in the order given, each in its own bracket or quote style.
pub fn header_body(headers: &Vec<Header>) -> (body: String)
    ensures
        body@ == header_text(header_texts(headers@)),
{
    let mut body = String::from_str("#pragma once\n");
    push_include_lines(&mut body, headers);
    body
}

/// The character of the decimal digit `d`.
pub open spec fn digit(d: nat) -> char
    recommends
        d < 10,
{
    (48 + d) as u8 as char
}

/// The decimal numeral of `n`, without leading zeros.
pub open spec fn decimal(n: nat) -> Seq<char>
    decreases n,
{
    if n < 10 {
        seq![digit(n)]
    } else {
        decimal(n / 10).push(digit(n % 10))
    }
}

/// Appends the decimal numeral of `n` to `out`.
pub fn push_decimal(out: &mut String, n: u128)
    ensures
        final(out)@ == old(out)@ + decimal(n as nat),
    decreases n,
{
    let ghost start = out@;
    if n >= 10 {
        push_decimal(out, n / 10);
    }
    let d: u8 = (n % 10) as u8;
    let c: char = (48u8 + d) as char;
    out.push(c);
    assert(out@ =~= start + decimal(n as nat));
}

/// The number that a text is filed under: what the default hasher gives for
/// the text's bytes followed by the byte that closes a string.
pub open spec fn text_hash(text: Seq<char>) -> u64 {
    DefaultHasher::spec_finish(seq![encode_utf8(text), seq![0xffu8]])
}

/// Hashes `text` with the default hasher, as a string is hashed.
pub fn content_hash(text: &str) -> (h: u64)
    ensures
        h == text_hash(text@),
{
    let mut hasher = DefaultHasher::new();
    hasher.write(text.as_bytes());
    let end: [u8; 1] = [0xffu8];
    hasher.write(end.as_slice());
    assert(end@ =~= seq![0xffu8]);
    assert(hasher@ =~= seq![encode_utf8(text@), seq![0xffu8]]);
    hasher.finish()
}

/// The stem shared by the names of all aggregate headers.
pub open spec fn file_stem() -> Seq<char> {
    "temphdr"@
}

/// The file extension for headers in language `mode`.
pub open spec fn extension(mode: LanguageMode) -> Seq<char> {
    match mode {
        LanguageMode::C => "h"@,
        LanguageMode::Cpp => "hpp"@,
    }
}

/// The file name of the aggregate header for `hs`, made at `millis`
/// milliseconds: the time, the hash of the lines, the stem and the extension.
pub open spec fn file_name(hs: Seq<HeaderText>, millis: u128, mode: LanguageMode) -> Seq<char> {
    decimal(millis as nat) + decimal(text_hash(include_lines(hs)) as nat) + file_stem() + seq!['.']
        + extension(mode)
}

/// Names the file of the aggregate header. Requests that differ in their
/// headers, in the time or in the language get names built from different
/// parts; the same request at the same time gets the same name.
pub fn header_file_name(headers: &Vec<Header>, millis: u128, mode: LanguageMode) -> (name: String)
    ensures
        name@ == file_name(header_texts(headers@), millis, mode),
{
    let mut lines = String::new();
    push_include_lines(&mut lines, headers);
    assert(lines@ =~= include_lines(header_texts(headers@)));
    let hash: u64 = content_hash(lines.as_str());
    let mut name = String::new();
    push_decimal(&mut name, millis);
    push_decimal(&mut name, hash as u128);
    name.append("temphdr");
    name.push('.');
    match mode {
        LanguageMode::C => name.append("h"),
        LanguageMode::Cpp => name.append("hpp"),
    }
    assert(name@ =~= file_name(header_texts(headers@), millis, mode));
    name
}

/// The header's text and its file name are functions of the header list, the
/// time and the language alone: equal requests give equal text and equal names.
pub proof fn lemma_header_is_determined(
    a: Seq<HeaderText>,
    b: Seq<HeaderText>,
    millis_a: u128,
    millis_b: u128,
    mode_a: LanguageMode,
    mode_b: LanguageMode,
)
    requires
        a =~= b,
        millis_a == millis_b,
        mode_a == mode_b,
    ensures
        header_text(a) == header_text(b),
        file_name(a, millis_a, mode_a) == file_name(b, millis_b, mode_b),
{
}

} // verus!
