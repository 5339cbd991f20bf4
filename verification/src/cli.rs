//! Command-line input validation.
//!
//! Path existence itself is checked by the caller at the edge; the rule
//! applied here is the run's: every input path must exist before any
//! file is opened, and the first missing one fails the whole run.

use vstd::prelude::*;

use crate::errors::Error;

verus! {

/// What the command line supplies: the input paths to merge, in order,
/// and the output path.
pub struct FileMergeArgs {
    pub files: Vec<String>,
    pub output: String,
}

/// Validates the inputs once the caller has checked, for each input
/// path in order, whether it exists (`present[t]`). Fails with the
/// first missing path, before any file is opened; otherwise hands back
/// the paths and the output path unchanged.
pub fn handle_input(args: FileMergeArgs, present: &Vec<bool>) -> (r: Result<
    (Vec<String>, String),
    Error,
>)
    requires
        args.files@.len() == present@.len(),
    ensures
        match r {
            Ok(ok) => {
                &&& ok.0 == args.files
                &&& ok.1 == args.output
                &&& forall|t: int| 0 <= t < present@.len() ==> present@[t]
            },
            Err(e) => match e {
                Error::FileNotFound(p) => exists|t: int|
                    {
                        &&& 0 <= t < present@.len()
                        &&& !present@[t]
                        &&& (forall|u: int| 0 <= u < t ==> present@[u])
                        &&& p@ == args.files@[t]@
                    },
                _ => false,
            },
        },
{
    let mut t: usize = 0;
    while t < present.len()
        invariant
            t <= present@.len(),
            present@.len() == args.files@.len(),
            forall|u: int| 0 <= u < t ==> present@[u],
        decreases present@.len() - t,
    {
        if !present[t] {
            return Err(Error::FileNotFound(args.files[t].clone()));
        }
        t += 1;
    }
    Ok((args.files, args.output))
}

} // verus!
