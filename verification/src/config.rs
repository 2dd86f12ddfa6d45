//! The fixed strings the routine is configured with: the name of the tracked
//! file, the commit message, the remote's name, the branch, and the refspec
//! pushed. Each executable accessor pins its result to a spec constant, so a
//! caller knows the exact text, not just "some string".

use vstd::prelude::*;
use vstd::string::StringExecFns;

verus! {

/// The one tracked file the routine appends to, at the working copy root.
pub open spec fn readme_file_name_spec() -> Seq<char> {
    "README.md"@
}

/// The fixed message of every commit the routine creates.
pub open spec fn commit_message_spec() -> Seq<char> {
    "Updated README.md"@
}

/// The name of the remote that is pushed to.
pub open spec fn remote_name_spec() -> Seq<char> {
    "origin"@
}

/// The branch pushed, on both the local and the remote side.
pub open spec fn branch_name_spec() -> Seq<char> {
    "master"@
}

/// The refspec handed to the push: the local branch to the identically
/// named remote branch.
pub open spec fn push_refspec_spec() -> Seq<char> {
    "refs/heads/"@ + branch_name_spec() + ":refs/heads/"@ + branch_name_spec()
}

pub fn readme_file_name() -> (s: String)
    ensures
        s@ == readme_file_name_spec(),
{
    String::from_str("README.md")
}

pub fn commit_message() -> (s: String)
    ensures
        s@ == commit_message_spec(),
{
    String::from_str("Updated README.md")
}

pub fn remote_name() -> (s: String)
    ensures
        s@ == remote_name_spec(),
{
    String::from_str("origin")
}

pub fn branch_name() -> (s: String)
    ensures
        s@ == branch_name_spec(),
{
    String::from_str("master")
}

pub fn push_refspec() -> (s: String)
    ensures
        s@ == push_refspec_spec(),
{
    let s = String::from_str("refs/heads/master:refs/heads/master");
    proof {
        reveal_strlit("refs/heads/master:refs/heads/master");
        reveal_strlit("refs/heads/");
        reveal_strlit(":refs/heads/");
        reveal_strlit("master");
        assert(s@ =~= push_refspec_spec());
    }
    s
}

} // verus!
