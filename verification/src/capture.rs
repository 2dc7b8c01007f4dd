//! The name of the file that a captured frame is written to.

use vstd::prelude::*;
use crate::chance::{all_alphanumeric, sample_alphanumeric};

verus! {

/// How many random characters a file name carries.
pub const ENTROPY_LEN: usize = 10;

/// The file name made of the program's name, an underscore, the random part
/// and the extension `.png`.
pub open spec fn file_name_model(exe_name: Seq<char>, entropy: Seq<char>) -> Seq<char> {
    exe_name + seq!['_'] + entropy + seq!['.', 'p', 'n', 'g']
}

/// The sequence can serve as the random part of a file name: ten
/// alphanumeric characters.
pub open spec fn is_entropy(entropy: Seq<char>) -> bool {
    entropy.len() == ENTROPY_LEN && all_alphanumeric(entropy)
}

/// The name is a capture file name of the program `exe_name`: that name, an
/// underscore, ten alphanumeric characters, and `.png`.
pub open spec fn is_capture_name(exe_name: Seq<char>, name: Seq<char>) -> bool {
    let start = exe_name.len() as int;
    &&& name.len() == start + 1 + ENTROPY_LEN + 4
    &&& name.subrange(0, start) == exe_name
    &&& name[start] == '_'
    &&& is_entropy(name.subrange(start + 1, start + 1 + ENTROPY_LEN))
    &&& name.subrange(start + 1 + ENTROPY_LEN, name.len() as int) == seq!['.', 'p', 'n', 'g']
}

/// The file name of the program `exe_name` with the random part `entropy`.
pub fn file_name_with_entropy(exe_name: &str, entropy: &str) -> (name: String)
    ensures
        name@ == file_name_model(exe_name@, entropy@),
{
    proof {
        reveal_strlit("_");
        reveal_strlit(".png");
    }
    let mut name = String::from_str(exe_name);
    name.append("_");
    name.append(entropy);
    name.append(".png");
    proof {
        assert("_"@ =~= seq!['_']);
        assert(".png"@ =~= seq!['.', 'p', 'n', 'g']);
    }
    name
}

/// A fresh capture file name for the program `exe_name`, with a random part
/// drawn anew at each call.
pub fn generate_file_name(exe_name: &str) -> (name: String)
    ensures
        is_capture_name(exe_name@, name@),
{
    let entropy = sample_alphanumeric(ENTROPY_LEN);
    proof {
        lemma_model_is_capture_name(exe_name@, entropy@);
    }
    file_name_with_entropy(exe_name, entropy.as_str())
}

/// A file name put together from ten alphanumeric characters has the shape
/// of a capture file name.
pub proof fn lemma_model_is_capture_name(exe_name: Seq<char>, entropy: Seq<char>)
    requires
        is_entropy(entropy),
    ensures
        is_capture_name(exe_name, file_name_model(exe_name, entropy)),
{
    let name = file_name_model(exe_name, entropy);
    let start = exe_name.len() as int;
    assert(name.subrange(0, start) =~= exe_name);
    assert(name.subrange(start + 1, start + 1 + ENTROPY_LEN) =~= entropy);
    assert(name.subrange(start + 1 + ENTROPY_LEN, name.len() as int) =~= seq!['.', 'p', 'n', 'g']);
}

/// Two captures of one program get different file names exactly when their
/// random parts differ.
pub proof fn lemma_names_differ_with_entropy(
    exe_name: Seq<char>,
    first: Seq<char>,
    second: Seq<char>,
)
    requires
        is_entropy(first),
        is_entropy(second),
    ensures
        file_name_model(exe_name, first) == file_name_model(exe_name, second) <==> first == second,
{
    let a = file_name_model(exe_name, first);
    let b = file_name_model(exe_name, second);
    let start = exe_name.len() as int;
    assert(a.subrange(start + 1, start + 1 + ENTROPY_LEN) =~= first);
    assert(b.subrange(start + 1, start + 1 + ENTROPY_LEN) =~= second);
}

} // verus!
