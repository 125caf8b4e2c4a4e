//! The branch name reported by `git branch --show-current`.

use vstd::prelude::*;
use vstd::utf8::{decode_utf8, valid_utf8};
use crate::strings::{trim_seq, trim_text};

verus! {

/// `String::from_utf8`: the text encoded by `bytes`, when they are valid
/// UTF-8.
#[verifier::external_body]
fn utf8_text(bytes: Vec<u8>) -> (r: Option<String>)
    ensures
        r is Some <==> valid_utf8(bytes@),
        r matches Some(s) ==> s@ == decode_utf8(bytes@),
{
    String::from_utf8(bytes).ok()
}

/// The branch named by the output of `git branch --show-current`: nothing
/// when the command failed, its output is not UTF-8, or it is blank;
/// otherwise the output trimmed.
pub open spec fn branch_of_output(success: bool, stdout: Seq<u8>) -> Option<Seq<char>> {
    if success && valid_utf8(stdout) && trim_seq(decode_utf8(stdout)).len() > 0 {
        Some(trim_seq(decode_utf8(stdout)))
    } else {
        None
    }
}

/// The current branch from the exit status and standard output of
/// `git -C <root> branch --show-current`.
pub fn branch_from_git_output(success: bool, stdout: Vec<u8>) -> (r: Option<String>)
    ensures
        match r {
            Some(b) => branch_of_output(success, stdout@) == Some(b@),
            None => branch_of_output(success, stdout@) is None,
        },
{
    if !success {
        return None;
    }
    let ghost bytes = stdout@;
    let text = match utf8_text(stdout) {
        Some(t) => t,
        None => {
            return None;
        },
    };
    let branch = trim_text(text.as_str());
    if branch.as_str().is_empty() {
        None
    } else {
        Some(branch)
    }
}

} // verus!
