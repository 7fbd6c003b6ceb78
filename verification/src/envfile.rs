//! Parsing of one line of a dotfile of `KEY=VALUE` assignments, as the
//! relaxed fallback loader reads it.

use vstd::prelude::*;
use vstd::string::StrSliceExecFns;
use vstd::string::StringExecFns;

use crate::text::is_space;
use crate::text::spec_is_space;
use crate::text::spec_unescape_newlines;
use crate::text::unescape_newlines;

verus! {

/// What one line of the dotfile means.
pub enum EnvLine {
    /// An empty or comment line: nothing to assign.
    Skip,
    /// A line without `=`: reported and skipped.
    Malformed,
    /// One `KEY=VALUE` assignment.
    Entry { key: String, value: String },
}

/// `t` without its leading whitespace.
pub open spec fn spec_trim_space_front(t: Seq<char>) -> Seq<char>
    decreases t.len(),
{
    if t.len() > 0 && spec_is_space(t[0]) {
        spec_trim_space_front(t.drop_first())
    } else {
        t
    }
}

/// `t` without its trailing whitespace.
pub open spec fn spec_trim_space_back(t: Seq<char>) -> Seq<char>
    decreases t.len(),
{
    if t.len() > 0 && spec_is_space(t.last()) {
        spec_trim_space_back(t.drop_last())
    } else {
        t
    }
}

/// `t` without whitespace at either end.
pub open spec fn spec_trim_spaces(t: Seq<char>) -> Seq<char> {
    spec_trim_space_back(spec_trim_space_front(t))
}

/// The characters stripped from both ends of an assignment's value:
/// quotes and a stray carriage return.
pub open spec fn spec_is_env_quote(c: char) -> bool {
    c == '"' || c == '\'' || c == '\r'
}

/// Whether `c` is stripped from the ends of an assignment's value.
pub fn is_env_quote(c: char) -> (r: bool)
    ensures
        r == spec_is_env_quote(c),
{
    c == '"' || c == '\'' || c == '\r'
}

/// `t` without its leading value decoration.
pub open spec fn spec_trim_env_quote_front(t: Seq<char>) -> Seq<char>
    decreases t.len(),
{
    if t.len() > 0 && spec_is_env_quote(t[0]) {
        spec_trim_env_quote_front(t.drop_first())
    } else {
        t
    }
}

/// `t` without its trailing value decoration.
pub open spec fn spec_trim_env_quote_back(t: Seq<char>) -> Seq<char>
    decreases t.len(),
{
    if t.len() > 0 && spec_is_env_quote(t.last()) {
        spec_trim_env_quote_back(t.drop_last())
    } else {
        t
    }
}

/// `t` without value decoration at either end.
pub open spec fn spec_trim_env_quotes(t: Seq<char>) -> Seq<char> {
    spec_trim_env_quote_back(spec_trim_env_quote_front(t))
}

proof fn lemma_trim_space_front(t: Seq<char>, a: int)
    requires
        0 <= a <= t.len(),
        forall|j: int| 0 <= j < a ==> spec_is_space(t[j]),
        a == t.len() || !spec_is_space(t[a]),
    ensures
        spec_trim_space_front(t) == t.skip(a),
    decreases a,
{
    if a == 0 {
        assert(t.skip(0) =~= t);
    } else {
        lemma_trim_space_front(t.drop_first(), a - 1);
        assert(t.drop_first().skip(a - 1) =~= t.skip(a));
    }
}

proof fn lemma_trim_space_back(t: Seq<char>, b: int)
    requires
        0 <= b <= t.len(),
        forall|j: int| b <= j < t.len() ==> spec_is_space(t[j]),
        b == 0 || !spec_is_space(t[b - 1]),
    ensures
        spec_trim_space_back(t) == t.take(b),
    decreases t.len() - b,
{
    if b == t.len() {
        assert(t.take(b) =~= t);
    } else {
        assert(t.last() == t[t.len() - 1]);
        lemma_trim_space_back(t.drop_last(), b);
        assert(t.drop_last() =~= t.take(t.len() - 1));
        assert(t.drop_last().take(b) =~= t.take(b));
    }
}

proof fn lemma_trim_env_quote_front(t: Seq<char>, a: int)
    requires
        0 <= a <= t.len(),
        forall|j: int| 0 <= j < a ==> spec_is_env_quote(t[j]),
        a == t.len() || !spec_is_env_quote(t[a]),
    ensures
        spec_trim_env_quote_front(t) == t.skip(a),
    decreases a,
{
    if a == 0 {
        assert(t.skip(0) =~= t);
    } else {
        lemma_trim_env_quote_front(t.drop_first(), a - 1);
        assert(t.drop_first().skip(a - 1) =~= t.skip(a));
    }
}

proof fn lemma_trim_env_quote_back(t: Seq<char>, b: int)
    requires
        0 <= b <= t.len(),
        forall|j: int| b <= j < t.len() ==> spec_is_env_quote(t[j]),
        b == 0 || !spec_is_env_quote(t[b - 1]),
    ensures
        spec_trim_env_quote_back(t) == t.take(b),
    decreases t.len() - b,
{
    if b == t.len() {
        assert(t.take(b) =~= t);
    } else {
        assert(t.last() == t[t.len() - 1]);
        lemma_trim_env_quote_back(t.drop_last(), b);
        assert(t.drop_last() =~= t.take(t.len() - 1));
        assert(t.drop_last().take(b) =~= t.take(b));
    }
}

/// Strips whitespace from both ends.
pub fn trim_spaces(s: &str) -> (r: String)
    ensures
        r@ == spec_trim_spaces(s@),
{
    let n = s.unicode_len();
    let mut a: usize = 0;
    while a < n && is_space(s.get_char(a))
        invariant
            0 <= a <= n,
            n == s@.len(),
            forall|j: int| 0 <= j < a ==> spec_is_space(s@[j]),
        decreases n - a,
    {
        a = a + 1;
    }
    let mut b: usize = n;
    while b > a && is_space(s.get_char(b - 1))
        invariant
            a <= b <= n,
            n == s@.len(),
            forall|j: int| b <= j < n ==> spec_is_space(s@[j]),
        decreases b,
    {
        b = b - 1;
    }
    proof {
        lemma_trim_space_front(s@, a as int);
        let front = s@.skip(a as int);
        assert forall|j: int| (b - a) <= j < front.len() implies spec_is_space(front[j]) by {
            assert(front[j] == s@[j + a]);
        }
        if b > a {
            assert(front[b - a - 1] == s@[b - 1]);
        }
        lemma_trim_space_back(front, b - a);
        assert(front.take(b - a) =~= s@.subrange(a as int, b as int));
    }
    String::from_str(s.substring_char(a, b))
}

/// Strips quotes and stray carriage returns from both ends.
pub fn trim_env_quotes(s: &str) -> (r: String)
    ensures
        r@ == spec_trim_env_quotes(s@),
{
    let n = s.unicode_len();
    let mut a: usize = 0;
    while a < n && is_env_quote(s.get_char(a))
        invariant
            0 <= a <= n,
            n == s@.len(),
            forall|j: int| 0 <= j < a ==> spec_is_env_quote(s@[j]),
        decreases n - a,
    {
        a = a + 1;
    }
    let mut b: usize = n;
    while b > a && is_env_quote(s.get_char(b - 1))
        invariant
            a <= b <= n,
            n == s@.len(),
            forall|j: int| b <= j < n ==> spec_is_env_quote(s@[j]),
        decreases b,
    {
        b = b - 1;
    }
    proof {
        lemma_trim_env_quote_front(s@, a as int);
        let front = s@.skip(a as int);
        assert forall|j: int| (b - a) <= j < front.len() implies spec_is_env_quote(front[j]) by {
            assert(front[j] == s@[j + a]);
        }
        if b > a {
            assert(front[b - a - 1] == s@[b - 1]);
        }
        lemma_trim_env_quote_back(front, b - a);
        assert(front.take(b - a) =~= s@.subrange(a as int, b as int));
    }
    String::from_str(s.substring_char(a, b))
}

/// The index of the first `=` of `t`, or `-1` when `t` has none.
pub open spec fn spec_first_eq(t: Seq<char>) -> int
    decreases t.len(),
{
    if t.len() == 0 {
        -1
    } else if t[0] == '=' {
        0
    } else {
        let r = spec_first_eq(t.drop_first());
        if r < 0 {
            -1
        } else {
            r + 1
        }
    }
}

proof fn lemma_first_eq_at(t: Seq<char>, m: int)
    requires
        0 <= m < t.len(),
        t[m] == '=',
        forall|j: int| 0 <= j < m ==> t[j] != '=',
    ensures
        spec_first_eq(t) == m,
    decreases m,
{
    if m > 0 {
        lemma_first_eq_at(t.drop_first(), m - 1);
    }
}

proof fn lemma_first_eq_none(t: Seq<char>)
    requires
        forall|j: int| 0 <= j < t.len() ==> t[j] != '=',
    ensures
        spec_first_eq(t) == -1,
    decreases t.len(),
{
    if t.len() > 0 {
        assert forall|j: int| 0 <= j < t.drop_first().len() implies t.drop_first()[j] != '=' by {
            assert(t.drop_first()[j] == t[j + 1]);
        }
        lemma_first_eq_none(t.drop_first());
    }
}

/// Reads one line of the dotfile: a blank or `#` comment line assigns
/// nothing; a line without `=` is malformed; any other line assigns, to
/// the trimmed text before the first `=`, the text after it, trimmed,
/// stripped of surrounding quotes, and with its newline escapes
/// expanded.
pub fn parse_env_line(line: &str) -> (r: EnvLine)
    ensures
        ({
            let t = spec_trim_spaces(line@);
            &&& (r is Skip <==> (t.len() == 0 || t[0] == '#'))
            &&& (r is Malformed <==> (t.len() > 0 && t[0] != '#' && spec_first_eq(t) < 0))
            &&& (r matches EnvLine::Entry { key, value } ==> {
                let k = spec_first_eq(t);
                &&& t.len() > 0
                &&& t[0] != '#'
                &&& k >= 0
                &&& key@ == spec_trim_spaces(t.take(k))
                &&& value@ == spec_unescape_newlines(
                    spec_trim_env_quotes(spec_trim_spaces(t.skip(k + 1))),
                )
            })
        }),
{
    let t_owned = trim_spaces(line);
    let t = t_owned.as_str();
    let m = t.unicode_len();
    if m == 0 {
        return EnvLine::Skip;
    }
    if t.get_char(0) == '#' {
        return EnvLine::Skip;
    }
    let mut k: usize = 0;
    while k < m && t.get_char(k) != '='
        invariant
            0 <= k <= m,
            m == t@.len(),
            forall|j: int| 0 <= j < k ==> t@[j] != '=',
        decreases m - k,
    {
        k = k + 1;
    }
    if k == m {
        proof {
            lemma_first_eq_none(t@);
        }
        return EnvLine::Malformed;
    }
    proof {
        lemma_first_eq_at(t@, k as int);
    }
    let key = trim_spaces(t.substring_char(0, k));
    let val_raw = t.substring_char(k + 1, m);
    let val_trimmed = trim_spaces(val_raw);
    let val_stripped = trim_env_quotes(val_trimmed.as_str());
    let value = unescape_newlines(val_stripped.as_str());
    proof {
        assert(t@.subrange(0, k as int) =~= t@.take(k as int));
        assert(t@.subrange(k as int + 1, m as int) =~= t@.skip(k as int + 1));
    }
    EnvLine::Entry { key, value }
}

} // verus!
