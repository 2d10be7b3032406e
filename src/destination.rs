//! Classifying and rewriting a single link or image destination.
use vstd::prelude::*;
use vstd::string::StrSliceExecFns;

verus! {

/// A destination is root-relative when it starts with the path separator.
pub open spec fn is_root_relative(dest: Seq<char>) -> bool {
    dest.len() > 0 && dest[0] == '/'
}

/// What a destination becomes under `prefix`: a root-relative one loses its
/// leading separator and gains the prefix; any other is left as it is.
pub open spec fn rewritten(dest: Seq<char>, prefix: Seq<char>) -> Seq<char> {
    if is_root_relative(dest) {
        prefix + dest.subrange(1, dest.len() as int)
    } else {
        dest
    }
}

/// Rewrites one destination relative to `prefix`.
pub fn rewrite_destination(dest: &str, prefix: &str) -> (r: String)
    ensures
        r@ == rewritten(dest@, prefix@),
        !is_root_relative(dest@) ==> r@ == dest@,
        is_root_relative(dest@) ==> r@ == prefix@ + dest@.subrange(1, dest@.len() as int),
{
    let len = dest.unicode_len();
    if len > 0 && dest.get_char(0) == '/' {
        let rest = dest.substring_char(1, len);
        let mut r = prefix.to_owned();
        r.append(rest);
        r
    } else {
        dest.to_owned()
    }
}

/// Under a prefix that does not itself start with a separator, rewriting a
/// destination once more changes nothing, unless the prefix is empty and the
/// destination starts with two separators.
pub proof fn lemma_rewritten_idempotent(dest: Seq<char>, prefix: Seq<char>)
    requires
        !is_root_relative(prefix),
        prefix.len() == 0 ==> !(dest.len() >= 2 && dest[0] == '/' && dest[1] == '/'),
    ensures
        rewritten(rewritten(dest, prefix), prefix) == rewritten(dest, prefix),
{
    if is_root_relative(dest) {
        let r = prefix + dest.subrange(1, dest.len() as int);
        if prefix.len() > 0 {
            assert(r[0] == prefix[0]);
        } else {
            assert(r == dest.subrange(1, dest.len() as int));
        }
    }
}

} // verus!
