//! The fixed texts of the bot: onboarding prompt pieces, the reserved
//! confirmation token, and the three confirmation replies.

use vstd::prelude::*;
use vstd::string::StringExecFns;
use vstd::string::StrSliceExecFns;

use crate::text::is_space;
use crate::text::spec_is_space;
use crate::text::spec_unescape_newlines;
use crate::text::unescape_newlines;

verus! {

pub const START_MESSAGE_PREFIX: &'static str = "\
ðŸ‘‹ Ð”Ð¾Ð±Ñ€Ð¾ Ð¿Ð¾Ð¶Ð°Ð»Ð¾Ð²Ð°Ñ‚ÑŒ!
Ð§Ñ‚Ð¾Ð±Ñ‹ Ð¿Ð¾Ð»ÑƒÑ‡Ð¸Ñ‚ÑŒ Ð“Ð°Ð¹Ð´ Â« 7 Ð·Ð°Ð²Ñ‚Ñ€Ð°ÐºÐ¾Ð² Ð´Ð»Ñ Ð¿Ð¾Ñ…ÑƒÐ´ÐµÐ½Ð¸ÑÂ», Ð¿Ð¾Ð´Ð¿Ð¸ÑˆÐ¸ÑÑŒ Ð½Ð° ÐºÐ°Ð½Ð°Ð»";

pub const START_MESSAGE_SUFFIX: &'static str = "ÐŸÐ¾ÑÐ»Ðµ Ð¿Ð¾Ð´Ð¿Ð¸ÑÐºÐ¸ Ð½Ð°Ð¶Ð¼Ð¸Ñ‚Ðµ ÐºÐ½Ð¾Ð¿ÐºÑƒ \"Ð“Ð¾Ñ‚Ð¾Ð²Ð¾\".";

pub const DEFAULT_GUIDE_MESSAGE: &'static str = "\
Ð¡Ð¿Ð°ÑÐ¸Ð±Ð¾! Ð’Ð¾Ñ‚ Ð¸Ð½ÑÑ‚Ñ€ÑƒÐºÑ†Ð¸Ñ ðŸ‘‡

ðŸŽ¥ Ð’Ð¸Ð´ÐµÐ¾-Ð³Ð°Ð¹Ð´:
https://youtube.com/...";

pub const DONE_BUTTON_TEXT: &'static str = "Ð“Ð¾Ñ‚Ð¾Ð²Ð¾";

pub const DONE_CALLBACK_DATA: &'static str = "done";

pub const NOT_SUBSCRIBED_MESSAGE: &'static str = "\
Ð’Ñ‹ ÐµÑ‰Ñ‘ Ð½Ðµ Ð¿Ð¾Ð´Ð¿Ð¸ÑÐ°Ð»Ð¸ÑÑŒ. ÐŸÐ¾Ð´Ð¿Ð¸ÑˆÐ¸Ñ‚ÐµÑÑŒ Ð½Ð° ÐºÐ°Ð½Ð°Ð»Ñ‹ Ð¸ Ð½Ð°Ð¶Ð¼Ð¸Ñ‚Ðµ \"Ð“Ð¾Ñ‚Ð¾Ð²Ð¾\".";

pub const CHECK_FAILED_MESSAGE: &'static str = "\
ÐÐµ Ð¼Ð¾Ð³Ñƒ Ð¿Ñ€Ð¾Ð²ÐµÑ€Ð¸Ñ‚ÑŒ Ð¿Ð¾Ð´Ð¿Ð¸ÑÐºÑƒ. Ð”Ð¾Ð±Ð°Ð²ÑŒÑ‚Ðµ Ð±Ð¾Ñ‚Ð° Ð°Ð´Ð¼Ð¸Ð½Ð¸ÑÑ‚Ñ€Ð°Ñ‚Ð¾Ñ€Ð¾Ð¼ ÐºÐ°Ð½Ð°Ð»Ð¾Ð² Ð¸ Ð¿Ð¾Ð¿Ñ€Ð¾Ð±ÑƒÐ¹Ñ‚Ðµ ÐµÑ‰Ñ‘ Ñ€Ð°Ð·.";

pub const EMPTY_CHANNELS_PLACEHOLDER: &'static str = "â€¢ (ÐºÐ°Ð½Ð°Ð»Ñ‹ Ð½Ðµ Ð·Ð°Ð´Ð°Ð½Ñ‹)";

/// The required-channel list, parsed from the raw configured value in
/// configuration order: entries are separated by commas, semicolons or
/// whitespace, stripped of surrounding quotes and byte-order marks,
/// empty entries are dropped, and every entry is given a leading `@`
/// unless it already has one. An absent or unparseable-to-nothing value
/// yields the empty list.
pub fn required_channels(raw: Option<&str>) -> (r: Vec<String>)
    ensures
        raw matches Some(s) ==> r.deep_view() == spec_channels_of(s@),
        raw is None ==> r.deep_view() == Seq::<Seq<char>>::empty(),
{
    let s = match raw {
        Some(s) => s,
        None => {
            let r: Vec<String> = Vec::new();
            proof {
                assert(r.deep_view() =~= Seq::<Seq<char>>::empty());
            }
            return r;
        },
    };
    let n = s.unicode_len();
    let mut out: Vec<String> = Vec::new();
    let mut cur = String::new();
    let mut i: usize = 0;
    proof {
        assert(s@.skip(0) =~= s@);
        assert(out.deep_view() =~= Seq::<Seq<char>>::empty());
        assert(out.deep_view() + spec_channels_of(s@) =~= spec_channels_of(s@));
    }
    while i < n
        invariant
            0 <= i <= n,
            n == s@.len(),
            spec_channels_of(s@) == out.deep_view() + spec_clean_tokens(
                spec_tokens(s@.skip(i as int), cur@),
            ),
        decreases n - i,
    {
        let ghost rest = s@.skip(i as int);
        let ghost prev_dv = out.deep_view();
        let ghost prev_cur = cur@;
        proof {
            assert(rest[0] == s@[i as int]);
            assert(rest.drop_first() =~= s@.skip(i as int + 1));
        }
        let c = s.get_char(i);
        if is_channel_sep(c) {
            if cur.unicode_len() > 0 {
                let ghost rest_tokens = spec_tokens(s@.skip(i as int + 1), Seq::empty());
                proof {
                    assert(spec_tokens(rest, prev_cur) == seq![prev_cur] + rest_tokens);
                    lemma_clean_tokens_cons(prev_cur, rest_tokens);
                }
                match clean_token(cur.as_str()) {
                    Some(h) => {
                        out.push(h);
                        proof {
                            assert(out.deep_view() =~= prev_dv + seq![h@]);
                            assert(prev_dv + spec_clean_one(prev_cur) =~= out.deep_view());
                        }
                    },
                    None => {
                        proof {
                            assert(prev_dv + spec_clean_one(prev_cur) =~= out.deep_view());
                        }
                    },
                }
                cur = String::new();
                proof {
                    assert(out.deep_view() + spec_clean_tokens(rest_tokens) =~= prev_dv + (
                    spec_clean_one(prev_cur) + spec_clean_tokens(rest_tokens)));
                }
            } else {
                proof {
                    assert(prev_cur =~= Seq::<char>::empty());
                }
            }
        } else {
            let piece = s.substring_char(i, i + 1);
            cur.append(piece);
            proof {
                assert(piece@ =~= seq![s@[i as int]]);
                assert(cur@ =~= prev_cur.push(rest[0]));
            }
        }
        i = i + 1;
    }
    proof {
        assert(s@.skip(n as int).len() == 0);
    }
    if cur.unicode_len() > 0 {
        let ghost prev_dv = out.deep_view();
        let ghost prev_cur = cur@;
        proof {
            assert(spec_tokens(s@.skip(n as int), prev_cur) == seq![prev_cur]);
            assert(seq![prev_cur] =~= seq![prev_cur] + Seq::<Seq<char>>::empty());
            lemma_clean_tokens_cons(prev_cur, Seq::empty());
            assert(spec_clean_tokens(Seq::<Seq<char>>::empty()) == Seq::<Seq<char>>::empty());
        }
        match clean_token(cur.as_str()) {
            Some(h) => {
                out.push(h);
                proof {
                    assert(out.deep_view() =~= prev_dv + seq![h@]);
                    assert(spec_channels_of(s@) =~= prev_dv + (spec_clean_one(prev_cur)
                        + Seq::<Seq<char>>::empty()));
                    assert(spec_channels_of(s@) =~= out.deep_view());
                }
            },
            None => {
                proof {
                    assert(spec_channels_of(s@) =~= prev_dv + (spec_clean_one(prev_cur)
                        + Seq::<Seq<char>>::empty()));
                    assert(spec_channels_of(s@) =~= out.deep_view());
                }
            },
        }
    } else {
        proof {
            assert(cur@ =~= Seq::<char>::empty());
            assert(spec_channels_of(s@) =~= out.deep_view());
        }
    }
    out
}

/// The slash command that begins the onboarding flow.
pub const START_COMMAND: &'static str = "/start";

/// Channel handles are rendered as links under this base.
pub const CHANNEL_LINK_PREFIX: &'static str = "https://t.me/";

/// `c` without its leading `@` characters.
pub open spec fn spec_strip_ats(c: Seq<char>) -> Seq<char>
    decreases c.len(),
{
    if c.len() > 0 && c[0] == '@' {
        spec_strip_ats(c.drop_first())
    } else {
        c
    }
}

/// The link line rendered for one channel handle.
pub open spec fn spec_channel_line(c: Seq<char>) -> Seq<char> {
    CHANNEL_LINK_PREFIX@ + spec_strip_ats(c)
}

/// The rendered channel list: one link line per channel, in order,
/// separated by newlines.
pub open spec fn spec_channel_list(cs: Seq<Seq<char>>) -> Seq<char>
    decreases cs.len(),
{
    if cs.len() == 0 {
        Seq::empty()
    } else if cs.len() == 1 {
        spec_channel_line(cs[0])
    } else {
        spec_channel_line(cs[0]) + seq!['\n'] + spec_channel_list(cs.drop_first())
    }
}

/// The onboarding prompt: the welcome text, then the channel list (or
/// the placeholder when no channel is required), then the closing line.
pub open spec fn spec_start_message(cs: Seq<Seq<char>>) -> Seq<char> {
    START_MESSAGE_PREFIX@ + seq!['\n'] + (if cs.len() == 0 {
        EMPTY_CHANNELS_PLACEHOLDER@
    } else {
        spec_channel_list(cs)
    }) + seq!['\n'] + START_MESSAGE_SUFFIX@
}

proof fn lemma_strip_ats(c: Seq<char>, k: int)
    requires
        0 <= k <= c.len(),
        forall|j: int| 0 <= j < k ==> c[j] == '@',
        k == c.len() || c[k] != '@',
    ensures
        spec_strip_ats(c) == c.skip(k),
    decreases k,
{
    if k == 0 {
        assert(c.skip(0) =~= c);
    } else {
        lemma_strip_ats(c.drop_first(), k - 1);
        assert(c.drop_first().skip(k - 1) =~= c.skip(k));
    }
}

proof fn lemma_channel_list_snoc(cs: Seq<Seq<char>>, i: int)
    requires
        1 <= i < cs.len(),
    ensures
        spec_channel_list(cs.take(i + 1)) == spec_channel_list(cs.take(i)) + seq!['\n']
            + spec_channel_line(cs[i]),
    decreases i,
{
    let t1 = cs.take(i + 1);
    let t0 = cs.take(i);
    assert(t1[0] == cs[0]);
    assert(t0[0] == cs[0]);
    assert(t1.len() == i + 1);
    assert(spec_channel_list(t1) == spec_channel_line(cs[0]) + seq!['\n'] + spec_channel_list(
        t1.drop_first(),
    ));
    if i == 1 {
        assert(t1.drop_first() =~= seq![cs[1]]);
        assert(t0 =~= seq![cs[0]]);
        assert(spec_channel_list(seq![cs[1]]) == spec_channel_line(cs[1]));
        assert(spec_channel_list(t0) == spec_channel_line(cs[0]));
        assert(spec_channel_line(cs[0]) + seq!['\n'] + spec_channel_line(cs[1])
            =~= spec_channel_list(t0) + seq!['\n'] + spec_channel_line(cs[1]));
    } else {
        let df = cs.drop_first();
        lemma_channel_list_snoc(df, i - 1);
        assert(t0.len() == i >= 2);
        assert(spec_channel_list(t0) == spec_channel_line(cs[0]) + seq!['\n'] + spec_channel_list(
            t0.drop_first(),
        ));
        assert(t1.drop_first() =~= df.take(i));
        assert(t0.drop_first() =~= df.take(i - 1));
        assert(df[i - 1] == cs[i]);
        assert(spec_channel_line(cs[0]) + seq!['\n'] + (spec_channel_list(df.take(i - 1))
            + seq!['\n'] + spec_channel_line(cs[i])) =~= (spec_channel_line(cs[0]) + seq!['\n']
            + spec_channel_list(df.take(i - 1))) + seq!['\n'] + spec_channel_line(cs[i]));
    }
}

/// Renders one channel handle as its link line.
pub fn channel_link(c: &str) -> (r: String)
    ensures
        r@ == spec_channel_line(c@),
{
    let n = c.unicode_len();
    let mut k: usize = 0;
    while k < n && c.get_char(k) == '@'
        invariant
            0 <= k <= n,
            n == c@.len(),
            forall|j: int| 0 <= j < k ==> c@[j] == '@',
        decreases n - k,
    {
        k = k + 1;
    }
    proof {
        lemma_strip_ats(c@, k as int);
    }
    let mut r = String::from_str(CHANNEL_LINK_PREFIX);
    r.append(c.substring_char(k, n));
    proof {
        assert(c@.subrange(k as int, n as int) =~= c@.skip(k as int));
    }
    r
}

/// Renders the onboarding prompt for the required channels, in order:
/// the welcome text, one link line per channel (or the placeholder text
/// when the list is empty), and the closing line.
pub fn start_message(channels: &Vec<String>) -> (r: String)
    ensures
        r@ == spec_start_message(channels.deep_view()),
{
    let ghost dv = channels.deep_view();
    let mut msg = String::from_str(START_MESSAGE_PREFIX);
    msg.append("\n");
    proof {
        reveal_strlit("\n");
        assert(("\n")@ =~= seq!['\n']);
    }
    if channels.len() == 0 {
        msg.append(EMPTY_CHANNELS_PLACEHOLDER);
    } else {
        proof {
            assert(dv[0] == channels@[0]@);
        }
        let mut list = channel_link(channels[0].as_str());
        proof {
            assert(dv.take(1) =~= seq![dv[0]]);
            assert(spec_channel_list(dv.take(1)) == spec_channel_line(dv[0]));
        }
        let mut i: usize = 1;
        while i < channels.len()
            invariant
                1 <= i <= channels@.len(),
                dv == channels.deep_view(),
                dv.len() == channels@.len(),
                list@ == spec_channel_list(dv.take(i as int)),
            decreases channels@.len() - i,
        {
            let ghost prev = list@;
            list.append("\n");
            proof {
                assert(dv[i as int] == channels@[i as int]@);
            }
            let link = channel_link(channels[i].as_str());
            list.append(link.as_str());
            proof {
                lemma_channel_list_snoc(dv, i as int);
                reveal_strlit("\n");
                assert(("\n")@ =~= seq!['\n']);
                assert(list@ =~= prev + seq!['\n'] + spec_channel_line(dv[i as int]));
            }
            i = i + 1;
        }
        proof {
            assert(dv.take(channels@.len() as int) =~= dv);
        }
        msg.append(list.as_str());
    }
    msg.append("\n");
    msg.append(START_MESSAGE_SUFFIX);
    proof {
        assert(msg@ =~= spec_start_message(dv));
    }
    msg
}

/// The guide text released to a subscribed user: the configured text
/// with its newline escapes expanded, or the built-in default when no
/// text is configured.
pub fn guide_message(raw: Option<&str>) -> (r: String)
    ensures
        raw matches Some(s) ==> r@ == spec_unescape_newlines(s@),
        raw is None ==> r@ == DEFAULT_GUIDE_MESSAGE@,
{
    match raw {
        Some(s) => unescape_newlines(s),
        None => String::from_str(DEFAULT_GUIDE_MESSAGE),
    }
}

/// The characters that separate channel entries in the configured list.
pub open spec fn spec_is_channel_sep(c: char) -> bool {
    c == ',' || c == ';' || spec_is_space(c)
}

/// Whether `c` separates channel entries.
pub fn is_channel_sep(c: char) -> (r: bool)
    ensures
        r == spec_is_channel_sep(c),
{
    c == ',' || c == ';' || is_space(c)
}

/// The decoration characters stripped from both ends of a channel
/// entry: quotes, a stray carriage return, and a byte-order mark.
pub open spec fn spec_is_quote(c: char) -> bool {
    c == '"' || c == '\'' || c == '\r' || c == '\u{feff}'
}

/// Whether `c` is stripped from the ends of a channel entry.
pub fn is_quote(c: char) -> (r: bool)
    ensures
        r == spec_is_quote(c),
{
    c == '"' || c == '\'' || c == '\r' || c == '\u{feff}'
}

/// `t` without its leading decoration characters.
pub open spec fn spec_trim_quotes_front(t: Seq<char>) -> Seq<char>
    decreases t.len(),
{
    if t.len() > 0 && spec_is_quote(t[0]) {
        spec_trim_quotes_front(t.drop_first())
    } else {
        t
    }
}

/// `t` without its trailing decoration characters.
pub open spec fn spec_trim_quotes_back(t: Seq<char>) -> Seq<char>
    decreases t.len(),
{
    if t.len() > 0 && spec_is_quote(t.last()) {
        spec_trim_quotes_back(t.drop_last())
    } else {
        t
    }
}

/// A channel entry with the decoration stripped from both ends.
pub open spec fn spec_clean_token(t: Seq<char>) -> Seq<char> {
    spec_trim_quotes_back(spec_trim_quotes_front(t))
}

/// A cleaned, non-empty entry as a channel handle: unchanged when it
/// already starts with `@`, else with `@` prepended.
pub open spec fn spec_channelize(t: Seq<char>) -> Seq<char> {
    if t.len() > 0 && t[0] == '@' {
        t
    } else {
        seq!['@'] + t
    }
}

proof fn lemma_trim_front(t: Seq<char>, a: int)
    requires
        0 <= a <= t.len(),
        forall|j: int| 0 <= j < a ==> spec_is_quote(t[j]),
        a == t.len() || !spec_is_quote(t[a]),
    ensures
        spec_trim_quotes_front(t) == t.skip(a),
    decreases a,
{
    if a == 0 {
        assert(t.skip(0) =~= t);
    } else {
        lemma_trim_front(t.drop_first(), a - 1);
        assert(t.drop_first().skip(a - 1) =~= t.skip(a));
    }
}

proof fn lemma_trim_back(t: Seq<char>, b: int)
    requires
        0 <= b <= t.len(),
        forall|j: int| b <= j < t.len() ==> spec_is_quote(t[j]),
        b == 0 || !spec_is_quote(t[b - 1]),
    ensures
        spec_trim_quotes_back(t) == t.take(b),
    decreases t.len() - b,
{
    if b == t.len() {
        assert(t.take(b) =~= t);
    } else {
        assert(t.last() == t[t.len() - 1]);
        lemma_trim_back(t.drop_last(), b);
        assert(t.drop_last() =~= t.take(t.len() - 1));
        assert(t.drop_last().take(b) =~= t.take(b));
    }
}

/// The channel entries of `s`: the maximal runs of non-separator
/// characters, with `cur` the run already read when `s` begins.
pub open spec fn spec_tokens(s: Seq<char>, cur: Seq<char>) -> Seq<Seq<char>>
    decreases s.len(),
{
    if s.len() == 0 {
        if cur.len() == 0 {
            Seq::empty()
        } else {
            seq![cur]
        }
    } else if spec_is_channel_sep(s[0]) {
        if cur.len() == 0 {
            spec_tokens(s.drop_first(), Seq::empty())
        } else {
            seq![cur] + spec_tokens(s.drop_first(), Seq::empty())
        }
    } else {
        spec_tokens(s.drop_first(), cur.push(s[0]))
    }
}

/// What one raw entry contributes to the channel list: nothing when
/// only decoration is left, else the one cleaned handle.
pub open spec fn spec_clean_one(t: Seq<char>) -> Seq<Seq<char>> {
    if spec_clean_token(t).len() == 0 {
        Seq::empty()
    } else {
        seq![spec_channelize(spec_clean_token(t))]
    }
}

/// The channel handles of the raw entries `toks`, in order.
pub open spec fn spec_clean_tokens(toks: Seq<Seq<char>>) -> Seq<Seq<char>>
    decreases toks.len(),
{
    if toks.len() == 0 {
        Seq::empty()
    } else {
        spec_clean_one(toks[0]) + spec_clean_tokens(toks.drop_first())
    }
}

/// The channel list parsed from a raw configuration value.
pub open spec fn spec_channels_of(s: Seq<char>) -> Seq<Seq<char>> {
    spec_clean_tokens(spec_tokens(s, Seq::empty()))
}

proof fn lemma_clean_tokens_cons(t: Seq<char>, toks: Seq<Seq<char>>)
    ensures
        spec_clean_tokens(seq![t] + toks) == spec_clean_one(t) + spec_clean_tokens(toks),
{
    let s = seq![t] + toks;
    assert(s[0] == t);
    assert(s.drop_first() =~= toks);
}

/// Strips the decoration from both ends of one channel entry and, when
/// something is left, returns it as a channel handle.
pub fn clean_token(t: &str) -> (r: Option<String>)
    ensures
        r is None <==> spec_clean_token(t@).len() == 0,
        r matches Some(c) ==> c@ == spec_channelize(spec_clean_token(t@)),
{
    let n = t.unicode_len();
    let mut a: usize = 0;
    while a < n && is_quote(t.get_char(a))
        invariant
            0 <= a <= n,
            n == t@.len(),
            forall|j: int| 0 <= j < a ==> spec_is_quote(t@[j]),
        decreases n - a,
    {
        a = a + 1;
    }
    proof {
        lemma_trim_front(t@, a as int);
    }
    let mut b: usize = n;
    while b > a && is_quote(t.get_char(b - 1))
        invariant
            a <= b <= n,
            n == t@.len(),
            forall|j: int| 0 <= j < a ==> spec_is_quote(t@[j]),
            forall|j: int| b <= j < n ==> spec_is_quote(t@[j]),
        decreases b,
    {
        b = b - 1;
    }
    proof {
        let front = t@.skip(a as int);
        assert forall|j: int| (b - a) <= j < front.len() implies spec_is_quote(front[j]) by {
            assert(front[j] == t@[j + a]);
        }
        if b > a {
            assert(front[b - a - 1] == t@[b - 1]);
        }
        lemma_trim_back(front, b - a);
        assert(front.take(b - a) =~= t@.subrange(a as int, b as int));
    }
    if b == a {
        return None;
    }
    let core = t.substring_char(a, b);
    if core.get_char(0) == '@' {
        Some(String::from_str(core))
    } else {
        let mut h = String::from_str("@");
        h.append(core);
        proof {
            reveal_strlit("@");
            assert(("@")@ =~= seq!['@']);
            assert(core@[0] == t@[a as int]);
        }
        Some(h)
    }
}

} // verus!
