use vstd::prelude::*;

verus! {

/// The commit to analyse: the first command-line argument when one is given, else `default`.
pub fn select_commit<'a>(args: &'a Vec<String>, default: &'a str) -> (r: &'a str)
    ensures
        args@.len() > 0 ==> r@ == args@[0]@,
        args@.len() == 0 ==> r@ == default@,
{
    if args.len() > 0 {
        args[0].as_str()
    } else {
        default
    }
}

} // verus!
