//! The arguments of an invocation, taken from the process's argument vector.

use crate::step::tail_of;
use crate::text::{same_text, texts};
use vstd::prelude::*;

verus! {

/// The first position of `args`, at or behind `k`, that holds none of the
/// words under which the program may be called: `doit`, `do` and `--`.
pub open spec fn first_word(args: Seq<Seq<char>>, k: int) -> int
    decreases args.len() - k,
{
    if k < 0 || k >= args.len() {
        args.len() as int
    } else if args[k] == "doit"@ || args[k] == "do"@ || args[k] == "--"@ {
        first_word(args, k + 1)
    } else {
        k
    }
}

/// The arguments of an invocation: what follows the program's own name and
/// the words `doit`, `do` and `--` that lead the rest.
pub open spec fn invocation_spec(args: Seq<Seq<char>>) -> Seq<Seq<char>> {
    args.skip(first_word(args, 1))
}

/// The arguments of an invocation, from the process's argument vector.
pub fn invocation(args: &Vec<String>) -> (out: Vec<String>)
    ensures
        texts(out@) == invocation_spec(texts(args@)),
{
    let mut k: usize = 1;
    if args.len() < 1 {
        proof {
            assert(texts(args@).skip(0) =~= Seq::<Seq<char>>::empty());
        }
        return Vec::new();
    }
    while k < args.len() && (same_text(args[k].as_str(), "doit") || same_text(
        args[k].as_str(),
        "do",
    ) || same_text(args[k].as_str(), "--"))
        invariant
            1 <= k <= args.len(),
            first_word(texts(args@), k as int) == first_word(texts(args@), 1),
        decreases args.len() - k,
    {
        k += 1;
    }
    tail_of(args, k)
}

} // verus!
