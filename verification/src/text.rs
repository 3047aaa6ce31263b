//! Text positioning support for diagnostics: where each line of a source
//! text begins.

use vstd::prelude::*;

verus! {

/// Whether character position `p` of `s` starts a line: the very beginning
/// of a nonempty text, or any position right after a line feed (a trailing
/// line feed starts no further line).
pub open spec fn is_line_start(s: Seq<char>, p: int) -> bool {
    (p == 0 && s.len() > 0) || (0 < p < s.len() && s[p - 1] == '\n')
}

/// The character offsets at which the lines of `text` begin, in order: the
/// empty text has no line, and a trailing line feed opens no further line.
pub fn calculate_line_offsets(text: &str) -> (r: Vec<usize>)
    ensures
        forall|k: int| 0 <= k < r@.len() ==> is_line_start(text@, #[trigger] r@[k] as int),
        forall|p: int|
            is_line_start(text@, p) ==> exists|k: int| 0 <= k < r@.len() && #[trigger] r@[k] == p,
        forall|k1: int, k2: int| 0 <= k1 < k2 < r@.len() ==> r@[k1] < r@[k2],
{
    let n = text.unicode_len();
    let mut out: Vec<usize> = Vec::new();
    let mut i: usize = 0;
    while i < n
        invariant
            n == text@.len(),
            0 <= i <= n,
            forall|k: int| 0 <= k < out@.len() ==> is_line_start(text@, #[trigger] out@[k] as int),
            forall|p: int|
                is_line_start(text@, p) && p < i ==> exists|k: int|
                    0 <= k < out@.len() && #[trigger] out@[k] == p,
            forall|k1: int, k2: int| 0 <= k1 < k2 < out@.len() ==> out@[k1] < out@[k2],
            forall|k: int| 0 <= k < out@.len() ==> out@[k] < i,
        decreases n - i,
    {
        let starts_line: bool = if i == 0 {
            true
        } else {
            text.get_char(i - 1) == '\n'
        };
        let ghost out_before = out@;
        if starts_line {
            out.push(i);
        }
        proof {
            assert forall|p: int| is_line_start(text@, p) && p < i + 1 implies exists|k: int|
                0 <= k < out@.len() && #[trigger] out@[k] == p by {
                if p == i {
                    assert(starts_line);
                    assert(out@[out@.len() - 1] == i);
                } else {
                    let k = choose|k: int| 0 <= k < out_before.len() && out_before[k] == p;
                    assert(out@[k] == p);
                }
            }
        }
        i = i + 1;
    }
    out
}

} // verus!
