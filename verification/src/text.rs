//! Small verified helpers over strings, shared by the router and the
//! configuration parsing.

use vstd::prelude::*;

verus! {

/// Compares two strings character by character.
pub fn str_eq(a: &str, b: &str) -> (r: bool)
    ensures
        r == (a@ == b@),
{
    let a_len = a.unicode_len();
    let b_len = b.unicode_len();
    if a_len != b_len {
        return false;
    }
    let mut i: usize = 0;
    while i < a_len
        invariant
            0 <= i <= a_len,
            a_len == a@.len(),
            a_len == b@.len(),
            forall|j: int| 0 <= j < i ==> a@[j] == b@[j],
        decreases a_len - i,
    {
        if a.get_char(i) != b.get_char(i) {
            return false;
        }
        i = i + 1;
    }
    proof {
        assert(a@ =~= b@);
    }
    true
}

/// The Unicode `White_Space` characters, the ones std's
/// `char::is_whitespace` accepts.
pub open spec fn spec_is_space(c: char) -> bool {
    let u = c as u32;
    u == 0x20 || (0x09 <= u && u <= 0x0d) || u == 0x85 || u == 0xa0 || u == 0x1680 || (0x2000 <= u
        && u <= 0x200a) || u == 0x2028 || u == 0x2029 || u == 0x202f || u == 0x205f || u == 0x3000
}

/// Whether `c` is a whitespace character.
pub fn is_space(c: char) -> (r: bool)
    ensures
        r == spec_is_space(c),
{
    let u = c as u32;
    u == 0x20 || (0x09 <= u && u <= 0x0d) || u == 0x85 || u == 0xa0 || u == 0x1680 || (0x2000 <= u
        && u <= 0x200a) || u == 0x2028 || u == 0x2029 || u == 0x202f || u == 0x205f || u == 0x3000
}

/// `s` with every two-character sequence `\` `n` replaced, left to
/// right, by a single newline.
pub open spec fn spec_unescape_newlines(s: Seq<char>) -> Seq<char>
    decreases s.len(),
{
    if s.len() == 0 {
        Seq::empty()
    } else if s.len() >= 2 && s[0] == '\\' && s[1] == 'n' {
        seq!['\n'] + spec_unescape_newlines(s.skip(2))
    } else {
        seq![s[0]] + spec_unescape_newlines(s.skip(1))
    }
}

/// Replaces every literal `\` `n` pair by a newline character.
pub fn unescape_newlines(s: &str) -> (r: String)
    ensures
        r@ == spec_unescape_newlines(s@),
{
    let n = s.unicode_len();
    let mut out = String::new();
    let mut i: usize = 0;
    proof {
        assert(s@.skip(0) =~= s@);
        assert(out@ + spec_unescape_newlines(s@) =~= spec_unescape_newlines(s@));
    }
    while i < n
        invariant
            0 <= i <= n,
            n == s@.len(),
            spec_unescape_newlines(s@) == out@ + spec_unescape_newlines(s@.skip(i as int)),
        decreases n - i,
    {
        let ghost prev = out@;
        let ghost rest = s@.skip(i as int);
        proof {
            assert(rest[0] == s@[i as int]);
        }
        if s.get_char(i) == '\\' && i + 1 < n && s.get_char(i + 1) == 'n' {
            out.append("\n");
            proof {
                assert(rest[1] == s@[i as int + 1]);
                assert(rest.skip(2) =~= s@.skip(i as int + 2));
                reveal_strlit("\n");
                assert(("\n")@ =~= seq!['\n']);
                assert(out@ + spec_unescape_newlines(s@.skip(i as int + 2)) =~= prev
                    + spec_unescape_newlines(rest));
            }
            i = i + 2;
        } else {
            let piece = s.substring_char(i, i + 1);
            out.append(piece);
            proof {
                assert(piece@ =~= seq![s@[i as int]]);
                assert(rest.skip(1) =~= s@.skip(i as int + 1));
                assert(out@ + spec_unescape_newlines(s@.skip(i as int + 1)) =~= prev
                    + spec_unescape_newlines(rest));
            }
            i = i + 1;
        }
    }
    proof {
        assert(s@.skip(n as int).len() == 0);
        assert(out@ + spec_unescape_newlines(s@.skip(n as int)) =~= out@);
    }
    out
}

} // verus!
