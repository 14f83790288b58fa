//! The final text: what the generator printed, followed by one link
//! declaration per library to link against.

use crate::text::texts;
use vstd::prelude::*;
use vstd::string::StringExecFns;

verus! {

/// The declaration that makes the linker take in library `name`. It starts
/// on a line of its own.
pub open spec fn link_block(name: Seq<char>) -> Seq<char> {
    "\n#[link(name = \""@ + name + "\")]extern \"C\" {}"@
}

/// One declaration per name of `names`, in order.
pub open spec fn link_blocks(names: Seq<Seq<char>>) -> Seq<char>
    decreases names.len(),
{
    if names.len() == 0 {
        Seq::<char>::empty()
    } else {
        link_blocks(names.drop_last()) + link_block(names.last())
    }
}

/// The generator's output `stdout`, followed by the link declarations for
/// `names`.
pub open spec fn generated_text(stdout: Seq<char>, names: Seq<Seq<char>>) -> Seq<char> {
    stdout + link_blocks(names)
}

/// Appends the link declarations for `link_names` to the generator's output.
/// With no name the output is returned as it is.
pub fn assemble(stdout: &str, link_names: &Vec<String>) -> (text: String)
    ensures
        text@ == generated_text(stdout@, texts(link_names@)),
{
    let ghost names = texts(link_names@);
    let mut text = String::from_str(stdout);
    let mut i: usize = 0;
    assert(text@ =~= stdout@ + link_blocks(names.take(0)));
    while i < link_names.len()
        invariant
            i <= link_names.len(),
            names == texts(link_names@),
            text@ == stdout@ + link_blocks(names.take(i as int)),
        decreases link_names.len() - i,
    {
        let ghost before = text@;
        assert(names.take(i + 1).drop_last() =~= names.take(i as int));
        assert(names.take(i + 1).last() == link_names@[i as int]@);
        text.append("\n#[link(name = \"");
        text.append(link_names[i].as_str());
        text.append("\")]extern \"C\" {}");
        assert(text@ =~= before + link_block(link_names@[i as int]@));
        assert(text@ =~= stdout@ + link_blocks(names.take(i + 1)));
        i = i + 1;
    }
    assert(names.take(link_names.len() as int) =~= names);
    text
}

/// The generator's output always opens the final text, whatever is linked.
pub proof fn lemma_output_is_kept(stdout: Seq<char>, names: Seq<Seq<char>>)
    ensures
        stdout.len() <= generated_text(stdout, names).len(),
        generated_text(stdout, names).take(stdout.len() as int) == stdout,
        names.len() == 0 ==> generated_text(stdout, names) == stdout,
{
    assert(generated_text(stdout, names).take(stdout.len() as int) =~= stdout);
    if names.len() == 0 {
        assert(generated_text(stdout, names) =~= stdout);
    }
}

} // verus!
