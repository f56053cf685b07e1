//! Poll items: a prompt and two options, submitted as one body of
//! exactly three non-empty lines.

use vstd::prelude::*;
use vstd::string::StrSliceExecFns;

verus! {

/// One poll: a prompt and its two options.
#[derive(Debug, PartialEq, Eq)]
pub struct PollBody {
    pub prompt: String,
    pub option_a: String,
    pub option_b: String,
}

impl PollBody {
    /// A copy that is, in the mathematical sense, the same poll.
    pub fn duplicate(&self) -> (r: PollBody)
        ensures
            r == *self,
    {
        PollBody {
            prompt: self.prompt.clone(),
            option_a: self.option_a.clone(),
            option_b: self.option_b.clone(),
        }
    }
}

/// Positions `i < j` split `s` into exactly three non-empty lines:
/// they hold the only two line breaks, neither at an edge nor adjacent.
pub open spec fn poll_lines_ok(s: Seq<char>, i: int, j: int) -> bool {
    &&& 1 <= i
    &&& i + 1 < j
    &&& j < s.len() - 1
    &&& s[i] == '\n'
    &&& s[j] == '\n'
    &&& forall|k: int| 0 <= k < s.len() && k != i && k != j ==> s[k] != '\n'
}

/// Checks that a submitted body decomposes into exactly three
/// non-empty lines -- prompt and two options -- and builds the poll.
/// Anything else is rejected before it can reach a repository.
pub fn validate_poll_body(s: &str) -> (r: Option<PollBody>)
    ensures
        r is Some <==> exists|i: int, j: int| #[trigger] poll_lines_ok(s@, i, j),
        forall|i: int, j: int|
            #[trigger] poll_lines_ok(s@, i, j) ==> (r matches Some(p) && p.prompt@ == s@.subrange(
                0,
                i,
            ) && p.option_a@ == s@.subrange(i + 1, j) && p.option_b@ == s@.subrange(
                j + 1,
                s@.len() as int,
            )),
{
    let len = s.unicode_len();
    let mut first: usize = 0;
    let mut have_first = false;
    let mut second: usize = 0;
    let mut have_second = false;
    let mut i: usize = 0;
    while i < len
        invariant
            0 <= i <= len,
            len == s@.len(),
            have_second ==> have_first,
            have_first ==> first < i && s@[first as int] == '\n',
            have_second ==> first < second < i && s@[second as int] == '\n',
            !have_first ==> forall|k: int| 0 <= k < i ==> s@[k] != '\n',
            have_first && !have_second ==> forall|k: int|
                0 <= k < i && k != first ==> s@[k] != '\n',
            have_second ==> forall|k: int|
                0 <= k < i && k != first && k != second ==> s@[k] != '\n',
        decreases len - i,
    {
        let c = s.get_char(i);
        if c == '\n' {
            if !have_first {
                first = i;
                have_first = true;
            } else if !have_second {
                second = i;
                have_second = true;
            } else {
                proof {
                    assert forall|x: int, y: int| !(#[trigger] poll_lines_ok(s@, x, y)) by {
                        if poll_lines_ok(s@, x, y) {
                            assert(s@[first as int] == '\n');
                            assert(s@[second as int] == '\n');
                            assert(s@[i as int] == '\n');
                            assert(first == x || first == y);
                            assert(second == x || second == y);
                            assert(i == x || i == y);
                        }
                    }
                }
                return None;
            }
        }
        i = i + 1;
    }
    if !have_second {
        proof {
            assert forall|x: int, y: int| !(#[trigger] poll_lines_ok(s@, x, y)) by {
                if poll_lines_ok(s@, x, y) {
                    if !have_first {
                        assert(s@[x] != '\n');
                    } else {
                        assert(x == first && y == first);
                    }
                }
            }
        }
        return None;
    }
    if first == 0 || second <= first + 1 || second + 1 >= len {
        proof {
            assert forall|x: int, y: int| !(#[trigger] poll_lines_ok(s@, x, y)) by {
                if poll_lines_ok(s@, x, y) {
                    assert(x == first && y == second);
                }
            }
        }
        return None;
    }
    let prompt = s.substring_char(0, first).to_owned();
    let option_a = s.substring_char(first + 1, second).to_owned();
    let option_b = s.substring_char(second + 1, len).to_owned();
    proof {
        assert(poll_lines_ok(s@, first as int, second as int));
        assert forall|x: int, y: int| #[trigger] poll_lines_ok(s@, x, y) implies x == first && y
            == second by {
            assert(s@[x] == '\n');
            assert(s@[y] == '\n');
        }
    }
    Some(PollBody { prompt, option_a, option_b })
}

} // verus!
