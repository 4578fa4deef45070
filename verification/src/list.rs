//! Listing the local receive directory.
use vstd::prelude::*;
use crate::text::{chars_of, starts_with, starts_with_spec, string_of_range};

verus! {

/// A receive directory written `~/...` is taken under the home directory:
/// the part after `~/`, or `None` for a directory taken as it is.
pub fn tilde_relative(path: &str) -> (r: Option<String>)
    ensures
        starts_with_spec(path@, "~/"@) ==> (r matches Some(rest) && rest@ == path@.skip(2)),
        !starts_with_spec(path@, "~/"@) ==> r is None,
{
    if starts_with(path, "~/") {
        let cs = chars_of(path);
        proof {
            reveal_strlit("~/");
        }
        Some(string_of_range(&cs, 2, cs.len()))
    } else {
        None
    }
}

/// Whether a directory entry is listed: hidden entries (names beginning
/// with `.`) only when asked for.
pub fn is_listed(name: &str, show_hidden: bool) -> (r: bool)
    ensures
        r == (show_hidden || !starts_with_spec(name@, "."@)),
{
    show_hidden || !starts_with(name, ".")
}

/// The sum of the sizes, from the first.
pub open spec fn sum_spec(sizes: Seq<u64>) -> nat
    decreases sizes.len(),
{
    if sizes.len() == 0 {
        0
    } else {
        sum_spec(sizes.drop_last()) + (sizes.last() as nat)
    }
}

proof fn lemma_sum_monotone(sizes: Seq<u64>, k: int)
    requires
        0 <= k <= sizes.len(),
    ensures
        sum_spec(sizes.take(k)) <= sum_spec(sizes),
    decreases sizes.len(),
{
    if k < sizes.len() {
        assert(sizes.drop_last().take(k) =~= sizes.take(k));
        lemma_sum_monotone(sizes.drop_last(), k);
    } else {
        assert(sizes.take(k) =~= sizes);
    }
}

/// The total size of the listed entries; `None` when it is more than a
/// `u64` holds.
pub fn total_size(sizes: &Vec<u64>) -> (r: Option<u64>)
    ensures
        r is Some <==> sum_spec(sizes@) <= u64::MAX,
        r matches Some(t) ==> t == sum_spec(sizes@),
{
    let mut total: u64 = 0;
    let mut i: usize = 0;
    while i < sizes.len()
        invariant
            i <= sizes@.len(),
            total as nat == sum_spec(sizes@.take(i as int)),
        decreases sizes.len() - i,
    {
        assert(sizes@.take(i + 1).drop_last() =~= sizes@.take(i as int));
        if total > u64::MAX - sizes[i] {
            proof {
                lemma_sum_monotone(sizes@, i + 1);
            }
            return None;
        }
        total = total + sizes[i];
        i += 1;
    }
    assert(sizes@.take(sizes@.len() as int) =~= sizes@);
    Some(total)
}

} // verus!
