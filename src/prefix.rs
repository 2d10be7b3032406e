//! How far a chapter sits below the book root, and the prefix that climbs back.
use vstd::prelude::*;
use vstd::string::StrSliceExecFns;

verus! {

/// The number of path separators in `s`.
pub open spec fn separator_count(s: Seq<char>) -> nat
    decreases s.len(),
{
    if s.len() == 0 {
        0
    } else {
        separator_count(s.drop_last()) + if s.last() == '/' { 1nat } else { 0nat }
    }
}

/// `n` repetitions of the up-reference token `../`.
pub open spec fn up_prefix(n: nat) -> Seq<char>
    decreases n,
{
    if n == 0 {
        Seq::empty()
    } else {
        up_prefix((n - 1) as nat) + seq!['.', '.', '/']
    }
}

pub proof fn lemma_up_prefix_len(n: nat)
    ensures
        up_prefix(n).len() == 3 * n,
    decreases n,
{
    if n > 0 {
        lemma_up_prefix_len((n - 1) as nat);
    }
}

/// The prefix that leads from the directory of the chapter at `path` back to
/// the book root: one `../` for each separator in the path, so a top-level
/// chapter gets the empty prefix and `a/b/c.md` gets `../../`.
pub fn resolve_prefix(path: &str) -> (r: String)
    ensures
        r@ == up_prefix(separator_count(path@)),
        separator_count(path@) == 0 ==> r@ == Seq::<char>::empty(),
        r@.len() == 3 * separator_count(path@),
{
    let len = path.unicode_len();
    let mut r = String::new();
    let mut i: usize = 0;
    while i < len
        invariant
            len == path@.len(),
            i <= len,
            r@ == up_prefix(separator_count(path@.subrange(0, i as int))),
        decreases len - i,
    {
        let c = path.get_char(i);
        proof {
            assert(path@.subrange(0, i + 1).drop_last() == path@.subrange(0, i as int));
        }
        if c == '/' {
            r.append("../");
            proof {
                reveal_strlit("../");
            }
        }
        i = i + 1;
    }
    proof {
        assert(path@.subrange(0, len as int) == path@);
        lemma_up_prefix_len(separator_count(path@));
    }
    r
}

} // verus!
