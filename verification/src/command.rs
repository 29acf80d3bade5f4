//! The commands that are run outside, and what came of them.
use vstd::prelude::*;

verus! {

/// What came of a command: whether it succeeded, and what it printed.
#[derive(Debug)]
pub struct Ran {
    pub ok: bool,
    pub stdout: String,
    pub stderr: String,
}

/// The arguments of a command.
pub fn arg_list(args: &[&str]) -> (r: Vec<String>)
    ensures
        r.deep_view() == args.deep_view(),
{
    let mut out: Vec<String> = Vec::new();
    let mut i: usize = 0;
    while i < args.len()
        invariant
            i <= args@.len(),
            out@.len() == i,
            forall|j: int| 0 <= j < i ==> out@[j]@ == args@[j]@,
        decreases args@.len() - i,
    {
        out.push(args[i].to_string());
        i += 1;
    }
    assert(out.deep_view() =~= args.deep_view());
    out
}

} // verus!
