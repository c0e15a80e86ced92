//! The operator's answer to the question whether the destination may be
//! dropped.

use vstd::prelude::*;
use vstd::string::StrSliceExecFns;

verus! {

/// Whether a character is white space: the characters with the Unicode
/// property `White_Space`.
pub open spec fn is_white_space(c: char) -> bool {
    let u = c as u32;
    ||| 0x09 <= u <= 0x0d
    ||| u == 0x20
    ||| u == 0x85
    ||| u == 0xa0
    ||| u == 0x1680
    ||| 0x2000 <= u <= 0x200a
    ||| u == 0x2028
    ||| u == 0x2029
    ||| u == 0x202f
    ||| u == 0x205f
    ||| u == 0x3000
}

/// A line without the white space at its end.
pub open spec fn trimmed_end(line: Seq<char>) -> Seq<char>
    decreases line.len(),
{
    if line.len() > 0 && is_white_space(line.last()) {
        trimmed_end(line.drop_last())
    } else {
        line
    }
}

/// Whether a line gives consent: it is `yes`, in lower case, followed by
/// nothing but white space.
pub open spec fn consents(line: Seq<char>) -> bool {
    trimmed_end(line) == seq!['y', 'e', 's']
}

/// Tells whether `c` is white space.
pub fn white_space(c: char) -> (out: bool)
    ensures
        out == is_white_space(c),
{
    let u = c as u32;
    (0x09 <= u && u <= 0x0d) || u == 0x20 || u == 0x85 || u == 0xa0 || u == 0x1680 || (0x2000 <= u
        && u <= 0x200a) || u == 0x2028 || u == 0x2029 || u == 0x202f || u == 0x205f || u == 0x3000
}

/// Tells whether the operator's line gives consent to dropping the
/// destination. Only `yes` does, with any white space after it; a line break
/// at the end is such white space. Another case or any other content does
/// not.
pub fn is_confirmed(line: &str) -> (out: bool)
    ensures
        out == consents(line@),
{
    let mut n: usize = line.unicode_len();
    assert(line@.take(n as int) =~= line@);
    while n > 0 && white_space(line.get_char(n - 1))
        invariant
            n <= line@.len(),
            trimmed_end(line@) == trimmed_end(line@.take(n as int)),
        decreases n,
    {
        proof {
            assert(line@.take(n as int).drop_last() =~= line@.take(n - 1));
        }
        n = n - 1;
    }
    assert(trimmed_end(line@) == line@.take(n as int));
    if n != 3 {
        return false;
    }
    let same = line.get_char(0) == 'y' && line.get_char(1) == 'e' && line.get_char(2) == 's';
    proof {
        if same {
            assert(line@.take(3) =~= seq!['y', 'e', 's']);
        } else {
            assert(line@.take(3)[0] == line@[0]);
            assert(line@.take(3)[1] == line@[1]);
            assert(line@.take(3)[2] == line@[2]);
        }
    }
    same
}

} // verus!
