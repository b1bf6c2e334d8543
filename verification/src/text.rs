//! Character-wise prefix matching, used by the autocomplete filter.

use vstd::prelude::*;
use vstd::string::StrSliceExecFns;

verus! {

/// `partial` is a (case-sensitive) prefix of `name`, decided character by
/// character.
pub fn starts_with_partial(name: &str, partial: &str) -> (r: bool)
    ensures
        r == partial@.is_prefix_of(name@),
{
    let name_len = name.unicode_len();
    let partial_len = partial.unicode_len();
    if partial_len > name_len {
        return false;
    }
    let mut i: usize = 0;
    while i < partial_len
        invariant
            0 <= i <= partial_len,
            partial_len == partial@.len(),
            name_len == name@.len(),
            partial_len <= name_len,
            forall|j: int| 0 <= j < i ==> name@[j] == partial@[j],
        decreases partial_len - i,
    {
        if name.get_char(i) != partial.get_char(i) {
            assert(!partial@.is_prefix_of(name@)) by {
                if partial@.is_prefix_of(name@) {
                    let front = name@.subrange(0, partial@.len() as int);
                    assert(partial@[i as int] == front[i as int]);
                }
            }
            return false;
        }
        i += 1;
    }
    assert(partial@ =~= name@.subrange(0, partial@.len() as int));
    true
}

} // verus!
