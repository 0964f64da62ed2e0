use vstd::prelude::*;
use vstd::string::StrSliceExecFns;

verus! {

/// Where the last piece of `s` starts when `s` is cut at each `::` met
/// scanning from index `i`, the piece being read having started at `start`.
pub open spec fn last_piece_start(s: Seq<char>, i: int, start: int) -> int
    decreases s.len() - i,
{
    if i < 0 || i + 1 >= s.len() {
        start
    } else if s[i] == ':' && s[i + 1] == ':' {
        last_piece_start(s, i + 2, i + 2)
    } else {
        last_piece_start(s, i + 1, start)
    }
}

proof fn lemma_last_piece_start_bounds(s: Seq<char>, i: int, start: int)
    requires
        0 <= start <= s.len(),
        0 <= i,
        start <= i + 2,
    ensures
        0 <= last_piece_start(s, i, start) <= s.len(),
    decreases s.len() - i,
{
    if i + 1 >= s.len() {
    } else if s[i] == ':' && s[i + 1] == ':' {
        lemma_last_piece_start_bounds(s, i + 2, i + 2);
    } else {
        lemma_last_piece_start_bounds(s, i + 1, start);
    }
}

/// The name a channel shows for its item type: the last piece of the full
/// type name cut at each `::` (`"u64"` for `"core::u64"`).
pub fn short_type_name<'a>(full_name: &'a str) -> (r: &'a str)
    ensures
        r@ == full_name@.subrange(last_piece_start(full_name@, 0, 0), full_name@.len() as int),
{
    let n = full_name.unicode_len();
    let mut i: usize = 0;
    let mut start: usize = 0;
    while n - i > 1
        invariant
            n == full_name@.len(),
            start <= i <= n,
            last_piece_start(full_name@, i as int, start as int) == last_piece_start(full_name@, 0, 0),
        decreases n - i,
    {
        if full_name.get_char(i) == ':' && full_name.get_char(i + 1) == ':' {
            i = i + 2;
            start = i;
        } else {
            i = i + 1;
        }
    }
    proof {
        lemma_last_piece_start_bounds(full_name@, i as int, start as int);
    }
    full_name.substring_char(start, n)
}

} // verus!
