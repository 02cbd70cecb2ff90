use vstd::prelude::*;
use vstd::string::StringExecFns;

verus! {

/// The data directory for stacks under a home directory.
pub open spec fn sigi_path_spec(home: Seq<char>) -> Seq<char> {
    home + "/.local/share/sigi"@
}

/// The file a named stack is stored in.
pub open spec fn sigi_file_spec(home: Seq<char>, filename: Seq<char>) -> Seq<char> {
    sigi_path_spec(home) + "/"@ + filename + ".json"@
}

/// The data directory for stacks, given the resolved home directory.
pub fn sigi_path(home: &str) -> (r: String)
    ensures
        r@ == sigi_path_spec(home@),
{
    let mut s = home.to_owned();
    s.append("/.local/share/sigi");
    s
}

/// The file a named stack is stored in, given the resolved home
/// directory.
pub fn sigi_file(home: &str, filename: &str) -> (r: String)
    ensures
        r@ == sigi_file_spec(home@, filename@),
{
    let mut s = sigi_path(home);
    s.append("/");
    s.append(filename);
    s.append(".json");
    s
}

} // verus!
