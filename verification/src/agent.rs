//! The login agent: its property list, its paths, and the `launchctl` steps
//! that each agent command takes.
use vstd::prelude::*;
use crate::cli::{default_config, parse_args_from, AgentCommand, Config};
use crate::text::{is_digit, lemma_decimal_digits, lemma_parse_decimal_roundtrip};
use crate::text::{decimal, decimal_string, has_prefix};

verus! {

/// The agent's label, which also names its property list.
pub const LAUNCH_AGENT_LABEL: &'static str = "dev.local.wake-nudge";

/// `s` with every `c` replaced by `by`, as `str::replace` with a character
/// pattern leaves it.
pub open spec fn replace_char(s: Seq<char>, c: char, by: Seq<char>) -> Seq<char>
    decreases s.len(),
{
    if s.len() == 0 {
        Seq::empty()
    } else {
        replace_char(s.drop_last(), c, by) + (if s.last() == c {
            by
        } else {
            seq![s.last()]
        })
    }
}

/// `s` with `&`, `<`, `>`, `"` and `'` replaced by their XML entities, one
/// replacement after the other, `&` first.
pub open spec fn escape_xml_text(s: Seq<char>) -> Seq<char> {
    replace_char(
        replace_char(
            replace_char(
                replace_char(replace_char(s, '&', "&amp;"@), '<', "&lt;"@),
                '>',
                "&gt;"@,
            ),
            '"',
            "&quot;"@,
        ),
        '\'',
        "&apos;"@,
    )
}

/// The text that one character escapes to.
pub open spec fn escape_char(c: char) -> Seq<char> {
    if c == '&' {
        "&amp;"@
    } else if c == '<' {
        "&lt;"@
    } else if c == '>' {
        "&gt;"@
    } else if c == '"' {
        "&quot;"@
    } else if c == '\'' {
        "&apos;"@
    } else {
        seq![c]
    }
}

/// Escaping character by character.
pub open spec fn escape_each(s: Seq<char>) -> Seq<char>
    decreases s.len(),
{
    if s.len() == 0 {
        Seq::empty()
    } else {
        escape_each(s.drop_last()) + escape_char(s.last())
    }
}

proof fn lemma_replace_concat(a: Seq<char>, b: Seq<char>, c: char, by: Seq<char>)
    ensures
        replace_char(a + b, c, by) == replace_char(a, c, by) + replace_char(b, c, by),
    decreases b.len(),
{
    if b.len() == 0 {
        assert(a + b =~= a);
        assert(replace_char(a, c, by) + replace_char(b, c, by) =~= replace_char(a, c, by));
    } else {
        lemma_replace_concat(a, b.drop_last(), c, by);
        assert((a + b).drop_last() =~= a + b.drop_last());
        assert((a + b).last() == b.last());
        assert(replace_char(a + b, c, by) =~= replace_char(a, c, by) + replace_char(b, c, by));
    }
}

proof fn lemma_replace_single(x: char, c: char, by: Seq<char>)
    ensures
        replace_char(seq![x], c, by) == (if x == c {
            by
        } else {
            seq![x]
        }),
{
    assert(seq![x].drop_last() =~= Seq::<char>::empty());
    assert(replace_char(Seq::<char>::empty(), c, by) =~= Seq::<char>::empty());
    assert(Seq::<char>::empty() + (if x == c {
        by
    } else {
        seq![x]
    }) =~= (if x == c {
        by
    } else {
        seq![x]
    }));
}

proof fn lemma_replace_no_match(s: Seq<char>, c: char, by: Seq<char>)
    requires
        !s.contains(c),
    ensures
        replace_char(s, c, by) == s,
    decreases s.len(),
{
    if s.len() > 0 {
        assert(!s.drop_last().contains(c)) by {
            if s.drop_last().contains(c) {
                let k = choose|k: int| 0 <= k < s.drop_last().len() && s.drop_last()[k] == c;
                assert(s[k] == c);
            }
        }
        lemma_replace_no_match(s.drop_last(), c, by);
        assert(s.last() != c) by {
            assert(s[s.len() - 1] == s.last());
        }
        assert(s.drop_last().push(s.last()) =~= s);
    } else {
        assert(s =~= Seq::<char>::empty());
    }
}

proof fn lemma_entities_plain()
    ensures
        !"&amp;"@.contains('<') && !"&amp;"@.contains('>') && !"&amp;"@.contains('"')
            && !"&amp;"@.contains('\''),
        !"&lt;"@.contains('>') && !"&lt;"@.contains('"') && !"&lt;"@.contains('\''),
        !"&gt;"@.contains('"') && !"&gt;"@.contains('\''),
        !"&quot;"@.contains('\''),
        "&amp;"@ == seq!['&', 'a', 'm', 'p', ';'],
        "&lt;"@ == seq!['&', 'l', 't', ';'],
        "&gt;"@ == seq!['&', 'g', 't', ';'],
        "&quot;"@ == seq!['&', 'q', 'u', 'o', 't', ';'],
        "&apos;"@ == seq!['&', 'a', 'p', 'o', 's', ';'],
{
    reveal_strlit("&amp;");
    reveal_strlit("&lt;");
    reveal_strlit("&gt;");
    reveal_strlit("&quot;");
    reveal_strlit("&apos;");
    assert("&amp;"@ =~= seq!['&', 'a', 'm', 'p', ';']);
    assert("&lt;"@ =~= seq!['&', 'l', 't', ';']);
    assert("&gt;"@ =~= seq!['&', 'g', 't', ';']);
    assert("&quot;"@ =~= seq!['&', 'q', 'u', 'o', 't', ';']);
    assert("&apos;"@ =~= seq!['&', 'a', 'p', 'o', 's', ';']);
}

/// Escaping one character with the five replacements in turn gives its entity.
proof fn lemma_escape_text_single(x: char)
    ensures
        escape_xml_text(seq![x]) == escape_char(x),
{
    lemma_entities_plain();
    lemma_replace_single(x, '&', "&amp;"@);
    let s1 = replace_char(seq![x], '&', "&amp;"@);
    if x == '&' {
        lemma_replace_no_match(s1, '<', "&lt;"@);
        lemma_replace_no_match(s1, '>', "&gt;"@);
        lemma_replace_no_match(s1, '"', "&quot;"@);
        lemma_replace_no_match(s1, '\'', "&apos;"@);
    } else {
        lemma_replace_single(x, '<', "&lt;"@);
        let s2 = replace_char(s1, '<', "&lt;"@);
        if x == '<' {
            lemma_replace_no_match(s2, '>', "&gt;"@);
            lemma_replace_no_match(s2, '"', "&quot;"@);
            lemma_replace_no_match(s2, '\'', "&apos;"@);
        } else {
            lemma_replace_single(x, '>', "&gt;"@);
            let s3 = replace_char(s2, '>', "&gt;"@);
            if x == '>' {
                lemma_replace_no_match(s3, '"', "&quot;"@);
                lemma_replace_no_match(s3, '\'', "&apos;"@);
            } else {
                lemma_replace_single(x, '"', "&quot;"@);
                let s4 = replace_char(s3, '"', "&quot;"@);
                if x == '"' {
                    lemma_replace_no_match(s4, '\'', "&apos;"@);
                } else {
                    lemma_replace_single(x, '\'', "&apos;"@);
                }
            }
        }
    }
}

/// The chained replacements and the per-character escaping agree.
pub proof fn lemma_escape_each(s: Seq<char>)
    ensures
        escape_xml_text(s) == escape_each(s),
    decreases s.len(),
{
    if s.len() == 0 {
        assert(escape_xml_text(s) =~= Seq::<char>::empty());
    } else {
        let a = s.drop_last();
        let b = seq![s.last()];
        assert(s =~= a + b);
        lemma_escape_each(a);
        lemma_escape_text_single(s.last());
        lemma_replace_concat(a, b, '&', "&amp;"@);
        let a1 = replace_char(a, '&', "&amp;"@);
        let b1 = replace_char(b, '&', "&amp;"@);
        lemma_replace_concat(a1, b1, '<', "&lt;"@);
        let a2 = replace_char(a1, '<', "&lt;"@);
        let b2 = replace_char(b1, '<', "&lt;"@);
        lemma_replace_concat(a2, b2, '>', "&gt;"@);
        let a3 = replace_char(a2, '>', "&gt;"@);
        let b3 = replace_char(b2, '>', "&gt;"@);
        lemma_replace_concat(a3, b3, '"', "&quot;"@);
        let a4 = replace_char(a3, '"', "&quot;"@);
        let b4 = replace_char(b3, '"', "&quot;"@);
        lemma_replace_concat(a4, b4, '\'', "&apos;"@);
    }
}

/// Escapes the characters that XML text may not hold raw, as the property
/// list needs: `&`, `<`, `>`, `"` and `'`.
pub fn escape_xml(value: &str) -> (r: String)
    ensures
        r@ == escape_xml_text(value@),
{
    let n = value.unicode_len();
    let mut out = String::new();
    let mut i: usize = 0;
    while i < n
        invariant
            n == value@.len(),
            i <= n,
            out@ == escape_each(value@.subrange(0, i as int)),
        decreases n - i,
    {
        let c = value.get_char(i);
        assert(value@.subrange(0, i + 1).drop_last() =~= value@.subrange(0, i as int));
        if c == '&' {
            out.append("&amp;");
        } else if c == '<' {
            out.append("&lt;");
        } else if c == '>' {
            out.append("&gt;");
        } else if c == '"' {
            out.append("&quot;");
        } else if c == '\'' {
            out.append("&apos;");
        } else {
            out.append(value.substring_char(i, i + 1));
            assert(value@.subrange(i as int, i + 1) =~= seq![c]);
        }
        i = i + 1;
    }
    proof {
        assert(value@.subrange(0, n as int) =~= value@);
        lemma_escape_each(value@);
    }
    out
}

/// Escaped text holds no `<`, `>`, `"` or `'`, and each `&` in it begins an
/// entity: a property list built from it keeps its structure whatever the
/// paths hold.
pub proof fn escaped_text_is_inert(s: Seq<char>)
    ensures
        !escape_xml_text(s).contains('<'),
        !escape_xml_text(s).contains('>'),
        !escape_xml_text(s).contains('"'),
        !escape_xml_text(s).contains('\''),
{
    lemma_escape_each(s);
    lemma_escape_each_inert(s);
}

proof fn lemma_escape_each_inert(s: Seq<char>)
    ensures
        forall|c: char|
            c == '<' || c == '>' || c == '"' || c == '\'' ==> !#[trigger] escape_each(s).contains(c),
    decreases s.len(),
{
    if s.len() > 0 {
        lemma_escape_each_inert(s.drop_last());
        lemma_entities_plain();
        let a = escape_each(s.drop_last());
        let b = escape_char(s.last());
        assert forall|c: char| c == '<' || c == '>' || c == '"' || c == '\'' implies !#[trigger] escape_each(
            s,
        ).contains(c) by {
            if escape_each(s).contains(c) {
                let k = choose|k: int| 0 <= k < escape_each(s).len() && escape_each(s)[k] == c;
                assert(escape_each(s) == a + b);
                if k < a.len() {
                    assert(a[k] == c);
                    assert(a.contains(c));
                } else {
                    let j = k - a.len();
                    assert(b[j] == c);
                    let x = s.last();
                    if x == '&' || x == '<' || x == '>' || x == '"' || x == '\'' {
                        assert(0 <= j < b.len());
                    } else {
                        assert(b == seq![x]);
                        assert(b[0] == x);
                    }
                }
            }
        }
    }
}

/// Text without `&`, `<`, `>`, `"` or `'` is left as it is by escaping.
pub proof fn escaping_plain_text_changes_nothing(s: Seq<char>)
    requires
        !s.contains('&'),
        !s.contains('<'),
        !s.contains('>'),
        !s.contains('"'),
        !s.contains('\''),
    ensures
        escape_xml_text(s) == s,
{
    lemma_replace_no_match(s, '&', "&amp;"@);
    lemma_replace_no_match(s, '<', "&lt;"@);
    lemma_replace_no_match(s, '>', "&gt;"@);
    lemma_replace_no_match(s, '"', "&quot;"@);
    lemma_replace_no_match(s, '\'', "&apos;"@);
}

/// `s` with every occurrence of the non-empty `pat`, found from left to right
/// without overlap, replaced by `by`, as `str::replace` leaves it.
pub open spec fn replace_text(s: Seq<char>, pat: Seq<char>, by: Seq<char>) -> Seq<char>
    decreases s.len(),
{
    if s.len() == 0 {
        Seq::empty()
    } else if pat.len() > 0 && has_prefix(s, pat) {
        by + replace_text(s.subrange(pat.len() as int, s.len() as int), pat, by)
    } else {
        seq![s[0]] + replace_text(s.drop_first(), pat, by)
    }
}

/// Reading escaped text back: `&lt;`, `&gt;`, `&quot;` and `&apos;` are
/// replaced by their characters in turn, and `&amp;` last.
pub open spec fn unescape_xml_text(s: Seq<char>) -> Seq<char> {
    replace_text(
        replace_text(
            replace_text(
                replace_text(replace_text(s, "&lt;"@, seq!['<']), "&gt;"@, seq!['>']),
                "&quot;"@,
                seq!['"'],
            ),
            "&apos;"@,
            seq!['\''],
        ),
        "&amp;"@,
        seq!['&'],
    )
}

/// The characters that escaping changes.
pub open spec fn is_special(c: char) -> bool {
    c == '&' || c == '<' || c == '>' || c == '"' || c == '\''
}

/// When reading back turns a special character's entity into the character.
pub open spec fn unescape_rank(c: char) -> int {
    if c == '<' {
        0
    } else if c == '>' {
        1
    } else if c == '"' {
        2
    } else if c == '\'' {
        3
    } else {
        4
    }
}

/// The character that reading back restores in step `k`.
pub open spec fn unescape_step_char(k: int) -> char {
    if k == 0 {
        '<'
    } else if k == 1 {
        '>'
    } else if k == 2 {
        '"'
    } else if k == 3 {
        '\''
    } else {
        '&'
    }
}

/// A character after `k` steps of reading back: its entity while its step
/// has not come yet, itself afterwards.
pub open spec fn partly_escaped_char(c: char, k: int) -> Seq<char> {
    if is_special(c) && unescape_rank(c) >= k {
        escape_char(c)
    } else {
        seq![c]
    }
}

/// Text after `k` steps of reading back its escaping.
pub open spec fn partly_escaped(s: Seq<char>, k: int) -> Seq<char>
    decreases s.len(),
{
    if s.len() == 0 {
        Seq::empty()
    } else {
        partly_escaped_char(s[0], k) + partly_escaped(s.drop_first(), k)
    }
}

proof fn lemma_partly_escaped_concat(a: Seq<char>, b: Seq<char>, k: int)
    ensures
        partly_escaped(a + b, k) == partly_escaped(a, k) + partly_escaped(b, k),
    decreases a.len(),
{
    if a.len() == 0 {
        assert(a + b =~= b);
        assert(partly_escaped(a, k) + partly_escaped(b, k) =~= partly_escaped(b, k));
    } else {
        lemma_partly_escaped_concat(a.drop_first(), b, k);
        assert((a + b).drop_first() =~= a.drop_first() + b);
        assert((a + b)[0] == a[0]);
        assert(partly_escaped(a + b, k) =~= partly_escaped(a, k) + partly_escaped(b, k));
    }
}

proof fn lemma_partly_escaped_start(s: Seq<char>)
    ensures
        partly_escaped(s, 0) == escape_each(s),
    decreases s.len(),
{
    if s.len() > 0 {
        let a = s.drop_last();
        let b = seq![s.last()];
        assert(s =~= a + b);
        lemma_partly_escaped_start(a);
        lemma_partly_escaped_concat(a, b, 0);
        assert(b.drop_first() =~= Seq::<char>::empty());
        assert(b[0] == s.last());
        assert(partly_escaped(Seq::<char>::empty(), 0) =~= Seq::<char>::empty());
        assert(partly_escaped(b, 0) == partly_escaped_char(s.last(), 0) + partly_escaped(
            b.drop_first(),
            0,
        ));
        assert(partly_escaped(b, 0) =~= partly_escaped_char(s.last(), 0));
        assert(partly_escaped_char(s.last(), 0) == escape_char(s.last()));
    } else {
        assert(partly_escaped(s, 0) =~= escape_each(s));
    }
}

proof fn lemma_partly_escaped_end(s: Seq<char>)
    ensures
        partly_escaped(s, 5) == s,
    decreases s.len(),
{
    if s.len() > 0 {
        lemma_partly_escaped_end(s.drop_first());
        assert(seq![s[0]] + s.drop_first() =~= s);
    } else {
        assert(partly_escaped(s, 5) =~= s);
    }
}

/// Text none of whose characters begins the pattern passes replacement
/// unchanged.
proof fn lemma_replace_skips(x: Seq<char>, y: Seq<char>, pat: Seq<char>, by: Seq<char>)
    requires
        pat.len() > 0,
        forall|i: int| 0 <= i < x.len() ==> x[i] != pat[0],
    ensures
        replace_text(x + y, pat, by) == x + replace_text(y, pat, by),
    decreases x.len(),
{
    if x.len() == 0 {
        assert(x + y =~= y);
        assert(x + replace_text(y, pat, by) =~= replace_text(y, pat, by));
    } else {
        let xy = x + y;
        assert(xy[0] == x[0]);
        assert(!has_prefix(xy, pat)) by {
            if has_prefix(xy, pat) {
                assert(xy.subrange(0, pat.len() as int)[0] == xy[0]);
            }
        }
        assert(xy.drop_first() =~= x.drop_first() + y);
        lemma_replace_skips(x.drop_first(), y, pat, by);
        assert(seq![x[0]] + (x.drop_first() + replace_text(y, pat, by)) =~= x + replace_text(
            y,
            pat,
            by,
        ));
    }
}

/// One step of reading back: replacing the entity of the step's character
/// turns the text of `k` steps into the text of `k + 1` steps.
proof fn lemma_unescape_step(s: Seq<char>, k: int)
    requires
        0 <= k < 5,
    ensures
        replace_text(
            partly_escaped(s, k),
            escape_char(unescape_step_char(k)),
            seq![unescape_step_char(k)],
        ) == partly_escaped(s, k + 1),
    decreases s.len(),
{
    lemma_entities_plain();
    let pat = escape_char(unescape_step_char(k));
    let by = seq![unescape_step_char(k)];
    if s.len() == 0 {
        assert(partly_escaped(s, k) =~= Seq::<char>::empty());
    } else {
        let c = s[0];
        let t = s.drop_first();
        lemma_unescape_step(t, k);
        let e = partly_escaped_char(c, k);
        let rest = partly_escaped(t, k);
        let whole = partly_escaped(s, k);
        assert(whole == e + rest);
        assert(pat.len() >= 4 && pat[0] == '&');
        if is_special(c) && unescape_rank(c) == k {
            assert(c == unescape_step_char(k));
            assert(e == pat);
            assert(whole.subrange(0, pat.len() as int) =~= pat);
            assert(whole.subrange(pat.len() as int, whole.len() as int) =~= rest);
            assert(partly_escaped_char(c, k + 1) == by);
        } else if is_special(c) && unescape_rank(c) > k {
            assert(e == escape_char(c));
            assert(e.len() >= 4 && e[0] == '&');
            assert(!has_prefix(whole, pat)) by {
                if has_prefix(whole, pat) {
                    let w = whole.subrange(0, pat.len() as int);
                    assert(w[1] == e[1] && w[2] == e[2]);
                    assert(e[1] != pat[1] || e[2] != pat[2]);
                }
            }
            assert(whole.drop_first() =~= e.drop_first() + rest);
            assert forall|i: int| 0 <= i < e.drop_first().len() implies e.drop_first()[i]
                != pat[0] by {
                assert(e.drop_first()[i] == e[i + 1]);
            }
            lemma_replace_skips(e.drop_first(), rest, pat, by);
            assert(partly_escaped_char(c, k + 1) == e);
            assert(seq![whole[0]] + (e.drop_first() + partly_escaped(t, k + 1)) =~= e
                + partly_escaped(t, k + 1));
        } else {
            assert(e == seq![c]);
            assert(c != '&');
            lemma_replace_skips(e, rest, pat, by);
            assert(partly_escaped_char(c, k + 1) == e);
        }
    }
}

/// Reading escaped text back gives the text that was escaped.
pub proof fn unescaping_undoes_escaping(s: Seq<char>)
    ensures
        unescape_xml_text(escape_xml_text(s)) == s,
{
    lemma_escape_each(s);
    lemma_partly_escaped_start(s);
    lemma_unescape_step(s, 0);
    lemma_unescape_step(s, 1);
    lemma_unescape_step(s, 2);
    lemma_unescape_step(s, 3);
    lemma_unescape_step(s, 4);
    lemma_partly_escaped_end(s);
}

/// Text without `&` is left as it is by reading back.
pub proof fn unescaping_plain_text_changes_nothing(s: Seq<char>)
    requires
        !s.contains('&'),
    ensures
        unescape_xml_text(s) == s,
{
    lemma_entities_plain();
    let e = Seq::<char>::empty();
    assert(s + e =~= s);
    assert(forall|i: int| 0 <= i < s.len() ==> s[i] != '&');
    lemma_replace_skips(s, e, "&lt;"@, seq!['<']);
    lemma_replace_skips(s, e, "&gt;"@, seq!['>']);
    lemma_replace_skips(s, e, "&quot;"@, seq!['"']);
    lemma_replace_skips(s, e, "&apos;"@, seq!['\'']);
    lemma_replace_skips(s, e, "&amp;"@, seq!['&']);
    assert(replace_text(e, "&lt;"@, seq!['<']) =~= e);
    assert(replace_text(e, "&gt;"@, seq!['>']) =~= e);
    assert(replace_text(e, "&quot;"@, seq!['"']) =~= e);
    assert(replace_text(e, "&apos;"@, seq!['\'']) =~= e);
    assert(replace_text(e, "&amp;"@, seq!['&']) =~= e);
}

/// `base` followed by the relative name `name`, with one `/` between them
/// unless `base` is empty or already ends in one, as a path join makes it.
pub open spec fn join_path(base: Seq<char>, name: Seq<char>) -> Seq<char> {
    if base.len() == 0 || base.last() == '/' {
        base + name
    } else {
        base + seq!['/'] + name
    }
}

/// Joins the relative name `name` onto `base`.
pub fn join(base: &str, name: &str) -> (r: String)
    ensures
        r@ == join_path(base@, name@),
{
    let mut r = String::from_str(base);
    let n = base.unicode_len();
    if n > 0 && base.get_char(n - 1) != '/' {
        proof { reveal_strlit("/"); }
        r.append("/");
    }
    r.append(name);
    r
}

/// Where the agent's property list lives under the home directory `home`.
pub open spec fn plist_path_of(home: Seq<char>) -> Seq<char> {
    join_path(
        join_path(join_path(home, "Library"@), "LaunchAgents"@),
        LAUNCH_AGENT_LABEL@ + ".plist"@,
    )
}

/// Where the agent's logs go under the home directory `home`.
pub open spec fn log_dir_of(home: Seq<char>) -> Seq<char> {
    join_path(join_path(join_path(home, "Library"@), "Logs"@), "wake-nudge"@)
}

/// The agent's property list path: `~/Library/LaunchAgents/<label>.plist`.
pub fn launch_agent_plist_path(home: &str) -> (r: String)
    ensures
        r@ == plist_path_of(home@),
{
    let library = join(home, "Library");
    let agents = join(library.as_str(), "LaunchAgents");
    let mut file = String::from_str(LAUNCH_AGENT_LABEL);
    file.append(".plist");
    join(agents.as_str(), file.as_str())
}

/// The directory the agent's property list lives in.
pub fn launch_agents_dir(home: &str) -> (r: String)
    ensures
        r@ == join_path(join_path(home@, "Library"@), "LaunchAgents"@),
{
    let library = join(home, "Library");
    join(library.as_str(), "LaunchAgents")
}

/// The agent's log directory: `~/Library/Logs/wake-nudge`.
pub fn agent_log_dir(home: &str) -> (r: String)
    ensures
        r@ == log_dir_of(home@),
{
    let library = join(home, "Library");
    let logs = join(library.as_str(), "Logs");
    join(logs.as_str(), "wake-nudge")
}

pub const PLIST_HEAD: &'static str = "<?xml version=\"1.0\" encoding=\"UTF-8\"?>\n<!DOCTYPE plist PUBLIC \"-//Apple//DTD PLIST 1.0//EN\" \"http://www.apple.com/DTDs/PropertyList-1.0.dtd\">\n<plist version=\"1.0\">\n<dict>\n  <key>Label</key>\n  <string>";
pub const PLIST_ARRAY_OPEN: &'static str = "</string>\n  <key>ProgramArguments</key>\n  <array>\n";
pub const PLIST_ARG_OPEN: &'static str = "    <string>";
pub const PLIST_ARG_CLOSE: &'static str = "</string>\n";
pub const PLIST_STDOUT: &'static str = "\n  </array>\n  <key>RunAtLoad</key>\n  <true/>\n  <key>KeepAlive</key>\n  <true/>\n  <key>StandardOutPath</key>\n  <string>";
pub const PLIST_STDERR: &'static str = "</string>\n  <key>StandardErrorPath</key>\n  <string>";
pub const PLIST_TAIL: &'static str = "</string>\n</dict>\n</plist>\n";

/// One program argument of the property list, on a line of its own.
pub open spec fn plist_argument_line(a: Seq<char>) -> Seq<char> {
    PLIST_ARG_OPEN@ + a + PLIST_ARG_CLOSE@
}

/// The lines of the program-argument array, in order.
pub open spec fn plist_array(items: Seq<Seq<char>>) -> Seq<char>
    decreases items.len(),
{
    if items.len() == 0 {
        Seq::empty()
    } else {
        plist_array(items.drop_last()) + plist_argument_line(items.last())
    }
}

/// The program arguments the property list holds, as written in it: the
/// escaped executable, then the arguments that reproduce the settings.
pub open spec fn plist_program_arguments(
    executable: Seq<char>,
    interval_secs: u64,
    port: u16,
    start_enabled: bool,
) -> Seq<Seq<char>> {
    seq![escape_xml_text(executable)] + agent_arguments(interval_secs, port, start_enabled)
}

/// The property list up to its program-argument array.
pub open spec fn plist_opening() -> Seq<char> {
    PLIST_HEAD@ + LAUNCH_AGENT_LABEL@ + PLIST_ARRAY_OPEN@
}

/// The property list after its program-argument array: run at load, kept
/// alive, output logged under `log_dir`, every path XML-escaped.
pub open spec fn plist_closing(log_dir: Seq<char>) -> Seq<char> {
    PLIST_STDOUT@ + escape_xml_text(join_path(log_dir, "stdout.log"@)) + PLIST_STDERR@
        + escape_xml_text(join_path(log_dir, "stderr.log"@)) + PLIST_TAIL@
}

/// The agent's property list: labelled with the agent's label, it runs
/// `executable` with the interval, the port and, when asked,
/// `--start-enabled`, at load and kept alive, with its output logged under
/// `log_dir`.
pub open spec fn plist_text(
    executable: Seq<char>,
    interval_secs: u64,
    port: u16,
    start_enabled: bool,
    log_dir: Seq<char>,
) -> Seq<char> {
    plist_opening() + plist_array(
        plist_program_arguments(executable, interval_secs, port, start_enabled),
    ) + plist_closing(log_dir)
}

/// Writes the agent's property list.
pub fn launch_agent_plist(
    executable: &str,
    interval_secs: u64,
    port: u16,
    start_enabled: bool,
    log_dir: &str,
) -> (r: String)
    ensures
        r@ == plist_text(executable@, interval_secs, port, start_enabled, log_dir@),
{
    let ghost items = plist_program_arguments(executable@, interval_secs, port, start_enabled);
    let mut args: Vec<String> = Vec::new();
    args.push(escape_xml(executable));
    args.push(String::from_str("--interval"));
    args.push(decimal_string(interval_secs));
    args.push(String::from_str("--port"));
    args.push(decimal_string(port as u64));
    if start_enabled {
        args.push(String::from_str("--start-enabled"));
    }
    assert(args@.map_values(|a: String| a@) =~= items);
    let mut r = String::from_str(PLIST_HEAD);
    r.append(LAUNCH_AGENT_LABEL);
    r.append(PLIST_ARRAY_OPEN);
    let n = args.len();
    let mut k: usize = 0;
    assert(items.take(0) =~= Seq::<Seq<char>>::empty());
    while k < n
        invariant
            n == args@.len(),
            items == args@.map_values(|a: String| a@),
            k <= n,
            r@ == plist_opening() + plist_array(items.take(k as int)),
        decreases n - k,
    {
        assert(items.take(k + 1).drop_last() =~= items.take(k as int));
        assert(items.take(k + 1).last() == args@[k as int]@);
        r.append(PLIST_ARG_OPEN);
        r.append(args[k].as_str());
        r.append(PLIST_ARG_CLOSE);
        k = k + 1;
    }
    assert(items.take(n as int) =~= items);
    let stdout_path = join(log_dir, "stdout.log");
    let stdout_log = escape_xml(stdout_path.as_str());
    let stderr_path = join(log_dir, "stderr.log");
    let stderr_log = escape_xml(stderr_path.as_str());
    r.append(PLIST_STDOUT);
    r.append(stdout_log.as_str());
    r.append(PLIST_STDERR);
    r.append(stderr_log.as_str());
    r.append(PLIST_TAIL);
    r
}

/// The arguments that the property list hands the program, after the
/// executable itself.
pub open spec fn agent_arguments(interval_secs: u64, port: u16, start_enabled: bool) -> Seq<
    Seq<char>,
> {
    seq!["--interval"@, decimal(interval_secs as nat), "--port"@, decimal(port as nat)] + (
    if start_enabled {
        seq!["--start-enabled"@]
    } else {
        Seq::empty()
    })
}

proof fn lemma_flag_literals()
    ensures
        "-h"@.len() == 2,
        "--help"@.len() == 6,
        "--once"@.len() == 6,
        "--dry-run"@.len() == 9,
        "--start-enabled"@.len() == 15,
        "--install-agent"@.len() == 15,
        "--uninstall-agent"@.len() == 17,
        "--start-agent"@.len() == 13,
        "--stop-agent"@.len() == 12,
        "--agent-status"@.len() == 14,
        "-i"@.len() == 2,
        "--interval"@.len() == 10,
        "-p"@.len() == 2,
        "--port"@.len() == 6,
        "--interval="@.len() == 11,
        "--port="@.len() == 7,
        "--once"@[2] == 'o',
        "--help"@[2] == 'h',
        "--port"@[2] == 'p',
        "--start-enabled"@[4] == 'a',
        "--install-agent"@[4] == 's',
        "-h"@[0] == '-',
        "--help"@[0] == '-',
        "--once"@[0] == '-',
        "--dry-run"@[0] == '-',
        "--start-enabled"@[0] == '-',
        "--install-agent"@[0] == '-',
        "--uninstall-agent"@[0] == '-',
        "--start-agent"@[0] == '-',
        "--stop-agent"@[0] == '-',
        "--agent-status"@[0] == '-',
        "-i"@[0] == '-',
        "--interval"@[0] == '-',
        "-p"@[0] == '-',
        "--port"@[0] == '-',
        "--interval="@[0] == '-',
        "--port="@[0] == '-',
{
    reveal_strlit("-h");
    reveal_strlit("--help");
    reveal_strlit("--once");
    reveal_strlit("--dry-run");
    reveal_strlit("--start-enabled");
    reveal_strlit("--install-agent");
    reveal_strlit("--uninstall-agent");
    reveal_strlit("--start-agent");
    reveal_strlit("--stop-agent");
    reveal_strlit("--agent-status");
    reveal_strlit("-i");
    reveal_strlit("--interval");
    reveal_strlit("-p");
    reveal_strlit("--port");
    reveal_strlit("--interval=");
    reveal_strlit("--port=");
}

/// The installed agent runs with the settings it was installed with:
/// reading the arguments that its property list hands the program gives
/// back the interval, the port and the start state.
pub proof fn installed_agent_keeps_settings(interval_secs: u64, port: u16, start_enabled: bool)
    requires
        interval_secs >= 1,
    ensures
        parse_args_from(default_config(), agent_arguments(interval_secs, port, start_enabled))
            == Ok::<Config, Seq<char>>(
            Config {
                interval_secs: interval_secs,
                port: port,
                start_enabled: start_enabled,
                ..default_config()
            },
        ),
{
    lemma_flag_literals();
    let di = decimal(interval_secs as nat);
    let dp = decimal(port as nat);
    lemma_decimal_digits(interval_secs as nat);
    lemma_decimal_digits(port as nat);
    lemma_parse_decimal_roundtrip(interval_secs as nat, u64::MAX as nat);
    lemma_parse_decimal_roundtrip(port as nat, u16::MAX as nat);
    let args = agent_arguments(interval_secs, port, start_enabled);
    let c1 = Config { interval_secs: interval_secs, ..default_config() };
    let c2 = Config { port: port, ..c1 };
    let tail: Seq<Seq<char>> = if start_enabled {
        seq!["--start-enabled"@]
    } else {
        Seq::empty()
    };
    assert(args.drop_first().drop_first() =~= seq!["--port"@, dp] + tail);
    assert((seq!["--port"@, dp] + tail).drop_first().drop_first() =~= tail);
    assert("--interval"@ != "-h"@);
    assert("--interval"@ != "--start-enabled"@);
    assert("--port"@ != "--help"@);
    assert("--port"@ != "--once"@);
    assert("--port"@ != "-h"@);
    assert("--port"@ != "--interval"@);
    assert("--interval"@ != "--help"@);
    assert("--interval"@ != "--once"@);
    if start_enabled {
        let s = "--start-enabled"@;
        assert(s != "--install-agent"@);
        assert(s != "-h"@);
        assert(s != "--help"@);
        assert(tail.drop_first() =~= Seq::<Seq<char>>::empty());
        assert(parse_args_from(c2, tail) == parse_args_from(
            Config { start_enabled: true, ..c2 },
            Seq::empty(),
        ));
    } else {
        assert(parse_args_from(c2, tail) == Ok::<Config, Seq<char>>(c2));
    }
    assert(parse_args_from(c1, seq!["--port"@, dp] + tail) == parse_args_from(c2, tail));
    assert(parse_args_from(default_config(), args) == parse_args_from(
        c1,
        seq!["--port"@, dp] + tail,
    ));
}

proof fn lemma_plist_array_push(items: Seq<Seq<char>>, a: Seq<char>)
    ensures
        plist_array(items.push(a)) == plist_array(items) + plist_argument_line(a),
{
    assert(items.push(a).drop_last() =~= items);
}

proof fn lemma_arguments_plain(interval_secs: u64, port: u16, start_enabled: bool)
    ensures
        forall|k: int|
            0 <= k < agent_arguments(interval_secs, port, start_enabled).len() ==> !(
            #[trigger] agent_arguments(interval_secs, port, start_enabled)[k]).contains('&'),
{
    lemma_decimal_digits(interval_secs as nat);
    lemma_decimal_digits(port as nat);
    reveal_strlit("--interval");
    reveal_strlit("--port");
    reveal_strlit("--start-enabled");
    let args = agent_arguments(interval_secs, port, start_enabled);
    assert forall|k: int| 0 <= k < args.len() implies !(#[trigger] args[k]).contains('&') by {
        let a = args[k];
        if a.contains('&') {
            let j = choose|j: int| 0 <= j < a.len() && a[j] == '&';
            if k == 1 || k == 3 {
                assert(is_digit(a[j]));
            }
        }
    }
}

/// The installed agent runs with the settings it was installed with: the
/// property list's program-argument array holds the escaped executable and
/// then arguments that, read back from XML and parsed, give the interval,
/// the port and the start state; the executable reads back as itself.
pub proof fn installed_plist_runs_with_settings(
    executable: Seq<char>,
    interval_secs: u64,
    port: u16,
    start_enabled: bool,
    log_dir: Seq<char>,
)
    requires
        interval_secs >= 1,
    ensures
        plist_text(executable, interval_secs, port, start_enabled, log_dir) == plist_opening()
            + plist_array(plist_program_arguments(executable, interval_secs, port, start_enabled))
            + plist_closing(log_dir),
        plist_program_arguments(executable, interval_secs, port, start_enabled).len() > 1,
        unescape_xml_text(
            plist_program_arguments(executable, interval_secs, port, start_enabled)[0],
        ) == executable,
        parse_args_from(
            default_config(),
            plist_program_arguments(
                executable,
                interval_secs,
                port,
                start_enabled,
            ).drop_first().map_values(|a: Seq<char>| unescape_xml_text(a)),
        ) == Ok::<Config, Seq<char>>(
            Config {
                interval_secs: interval_secs,
                port: port,
                start_enabled: start_enabled,
                ..default_config()
            },
        ),
{
    let items = plist_program_arguments(executable, interval_secs, port, start_enabled);
    let args = agent_arguments(interval_secs, port, start_enabled);
    assert(items.drop_first() =~= args);
    unescaping_undoes_escaping(executable);
    lemma_arguments_plain(interval_secs, port, start_enabled);
    assert forall|k: int| 0 <= k < args.len() implies unescape_xml_text(#[trigger] args[k])
        == args[k] by {
        unescaping_plain_text_changes_nothing(args[k]);
    }
    assert(args.map_values(|a: Seq<char>| unescape_xml_text(a)) =~= args);
    installed_agent_keeps_settings(interval_secs, port, start_enabled);
}

/// `--start-enabled` is one more program argument, the last, right after the
/// port: the list with it is the list without it plus that one line.
pub proof fn start_enabled_adds_one_argument_after_the_port(
    executable: Seq<char>,
    interval_secs: u64,
    port: u16,
    log_dir: Seq<char>,
)
    ensures
        plist_program_arguments(executable, interval_secs, port, true) == plist_program_arguments(
            executable,
            interval_secs,
            port,
            false,
        ).push("--start-enabled"@),
        plist_text(executable, interval_secs, port, false, log_dir) == plist_opening()
            + plist_array(plist_program_arguments(executable, interval_secs, port, false))
            + plist_closing(log_dir),
        plist_text(executable, interval_secs, port, true, log_dir) == plist_opening()
            + plist_array(plist_program_arguments(executable, interval_secs, port, false))
            + plist_argument_line("--start-enabled"@) + plist_closing(log_dir),
        plist_array(plist_program_arguments(executable, interval_secs, port, false)) == plist_array(
            seq![escape_xml_text(executable), "--interval"@, decimal(interval_secs as nat)],
        ) + plist_argument_line("--port"@) + plist_argument_line(decimal(port as nat)),
{
    let off = plist_program_arguments(executable, interval_secs, port, false);
    let on = plist_program_arguments(executable, interval_secs, port, true);
    assert(on =~= off.push("--start-enabled"@));
    lemma_plist_array_push(off, "--start-enabled"@);
    let first = seq![escape_xml_text(executable), "--interval"@, decimal(interval_secs as nat)];
    let with_flag = first.push("--port"@);
    assert(off =~= with_flag.push(decimal(port as nat)));
    lemma_plist_array_push(with_flag, decimal(port as nat));
    lemma_plist_array_push(first, "--port"@);
}

/// One thing that carrying out an agent command does.
#[derive(Debug)]
pub enum AgentStep {
    /// Run `launchctl` with these arguments; when `must_succeed`, a failure
    /// ends the command with an error, otherwise it is ignored.
    Launchctl { args: Vec<String>, must_succeed: bool },
    /// Remove this file if it exists.
    RemoveFile(String),
    /// Print this line.
    Print(String),
}

/// A step as plain text.
pub enum StepModel {
    Launchctl(Seq<Seq<char>>, bool),
    RemoveFile(Seq<char>),
    Print(Seq<char>),
}

pub open spec fn step_model(s: AgentStep) -> StepModel {
    match s {
        AgentStep::Launchctl { args, must_succeed } => StepModel::Launchctl(
            args@.map_values(|a: String| a@),
            must_succeed,
        ),
        AgentStep::RemoveFile(p) => StepModel::RemoveFile(p@),
        AgentStep::Print(l) => StepModel::Print(l@),
    }
}

/// Steps as plain text.
pub open spec fn steps_model(v: Seq<AgentStep>) -> Seq<StepModel> {
    v.map_values(|s: AgentStep| step_model(s))
}

/// The launchd domain of the user whose id is `uid`: `gui/<uid>`.
pub open spec fn gui_domain_of(uid: Seq<char>) -> Seq<char> {
    "gui/"@ + uid
}

/// The agent's service inside `domain`: `<domain>/<label>`.
pub open spec fn service_of(domain: Seq<char>) -> Seq<char> {
    domain + "/"@ + LAUNCH_AGENT_LABEL@
}

/// The launchd domain of the user with id `uid`.
pub fn gui_domain(uid: &str) -> (r: String)
    ensures
        r@ == gui_domain_of(uid@),
{
    let mut r = String::from_str("gui/");
    r.append(uid);
    r
}

/// The agent's service target inside `domain`.
pub fn service_target(domain: &str) -> (r: String)
    ensures
        r@ == service_of(domain@),
{
    let mut r = String::from_str(domain);
    r.append("/");
    r.append(LAUNCH_AGENT_LABEL);
    r
}

fn owned(s: &str) -> (r: String)
    ensures
        r@ == s@,
{
    String::from_str(s)
}

fn launchctl2(a: &str, b: &str, must_succeed: bool) -> (r: AgentStep)
    ensures
        step_model(r) == StepModel::Launchctl(seq![a@, b@], must_succeed),
{
    let mut args: Vec<String> = Vec::new();
    args.push(owned(a));
    args.push(owned(b));
    assert(args@.map_values(|x: String| x@) =~= seq![a@, b@]);
    AgentStep::Launchctl { args, must_succeed }
}

fn launchctl3(a: &str, b: &str, c: &str, must_succeed: bool) -> (r: AgentStep)
    ensures
        step_model(r) == StepModel::Launchctl(seq![a@, b@, c@], must_succeed),
{
    let mut args: Vec<String> = Vec::new();
    args.push(owned(a));
    args.push(owned(b));
    args.push(owned(c));
    assert(args@.map_values(|x: String| x@) =~= seq![a@, b@, c@]);
    AgentStep::Launchctl { args, must_succeed }
}

fn print_line(prefix: &str, rest: &str) -> (r: AgentStep)
    ensures
        step_model(r) == StepModel::Print(prefix@ + rest@),
{
    let mut line = String::from_str(prefix);
    line.append(rest);
    AgentStep::Print(line)
}

/// The launchctl and report steps of installing the agent, once its property
/// list is written at `plist_path`: boot out any old copy (ignoring failure),
/// bootstrap, enable and kick-start the service, then report where it is.
pub open spec fn install_steps(domain: Seq<char>, plist_path: Seq<char>, port: u16) -> Seq<
    StepModel,
> {
    seq![
        StepModel::Launchctl(seq!["bootout"@, domain, plist_path], false),
        StepModel::Launchctl(seq!["bootstrap"@, domain, plist_path], true),
        StepModel::Launchctl(seq!["enable"@, service_of(domain)], true),
        StepModel::Launchctl(seq!["kickstart"@, "-k"@, service_of(domain)], true),
        StepModel::Print("installed LaunchAgent: "@ + plist_path),
        StepModel::Print("control button: http://127.0.0.1:"@ + decimal(port as nat)),
    ]
}

/// Boot out the agent (ignoring failure), remove its property list, report.
pub open spec fn uninstall_steps(domain: Seq<char>, plist_path: Seq<char>) -> Seq<StepModel> {
    seq![
        StepModel::Launchctl(seq!["bootout"@, domain, plist_path], false),
        StepModel::RemoveFile(plist_path),
        StepModel::Print("removed LaunchAgent: "@ + plist_path),
    ]
}

/// Kick-start the agent's service and report it.
pub open spec fn start_steps(domain: Seq<char>) -> Seq<StepModel> {
    seq![
        StepModel::Launchctl(seq!["kickstart"@, "-k"@, service_of(domain)], true),
        StepModel::Print("started LaunchAgent: "@ + LAUNCH_AGENT_LABEL@),
    ]
}

/// Send the agent's service a TERM signal and report it.
pub open spec fn stop_steps(domain: Seq<char>) -> Seq<StepModel> {
    seq![
        StepModel::Launchctl(seq!["kill"@, "TERM"@, service_of(domain)], true),
        StepModel::Print("stopped LaunchAgent: "@ + LAUNCH_AGENT_LABEL@),
    ]
}

/// Print launchd's own description of the agent's service.
pub open spec fn status_steps(domain: Seq<char>) -> Seq<StepModel> {
    seq![StepModel::Launchctl(seq!["print"@, service_of(domain)], true)]
}

/// The steps of installing the agent after its files are written.
pub fn install_agent(domain: &str, plist_path: &str, port: u16) -> (r: Vec<AgentStep>)
    ensures
        steps_model(r@) == install_steps(domain@, plist_path@, port),
{
    let target = service_target(domain);
    let port_text = decimal_string(port as u64);
    let mut v: Vec<AgentStep> = Vec::new();
    v.push(launchctl3("bootout", domain, plist_path, false));
    v.push(launchctl3("bootstrap", domain, plist_path, true));
    v.push(launchctl2("enable", target.as_str(), true));
    v.push(launchctl3("kickstart", "-k", target.as_str(), true));
    v.push(print_line("installed LaunchAgent: ", plist_path));
    v.push(print_line("control button: http://127.0.0.1:", port_text.as_str()));
    assert(steps_model(v@) =~= install_steps(domain@, plist_path@, port));
    v
}

/// The steps of uninstalling the agent.
pub fn uninstall_agent(domain: &str, plist_path: &str) -> (r: Vec<AgentStep>)
    ensures
        steps_model(r@) == uninstall_steps(domain@, plist_path@),
{
    let mut v: Vec<AgentStep> = Vec::new();
    v.push(launchctl3("bootout", domain, plist_path, false));
    v.push(AgentStep::RemoveFile(owned(plist_path)));
    v.push(print_line("removed LaunchAgent: ", plist_path));
    assert(steps_model(v@) =~= uninstall_steps(domain@, plist_path@));
    v
}

/// The steps of starting the agent.
pub fn start_agent(domain: &str) -> (r: Vec<AgentStep>)
    ensures
        steps_model(r@) == start_steps(domain@),
{
    let target = service_target(domain);
    let mut v: Vec<AgentStep> = Vec::new();
    v.push(launchctl3("kickstart", "-k", target.as_str(), true));
    v.push(print_line("started LaunchAgent: ", LAUNCH_AGENT_LABEL));
    assert(steps_model(v@) =~= start_steps(domain@));
    v
}

/// The steps of stopping the agent.
pub fn stop_agent(domain: &str) -> (r: Vec<AgentStep>)
    ensures
        steps_model(r@) == stop_steps(domain@),
{
    let target = service_target(domain);
    let mut v: Vec<AgentStep> = Vec::new();
    v.push(launchctl3("kill", "TERM", target.as_str(), true));
    v.push(print_line("stopped LaunchAgent: ", LAUNCH_AGENT_LABEL));
    assert(steps_model(v@) =~= stop_steps(domain@));
    v
}

/// The steps of showing the agent's status.
pub fn status_agent(domain: &str) -> (r: Vec<AgentStep>)
    ensures
        steps_model(r@) == status_steps(domain@),
{
    let target = service_target(domain);
    let mut v: Vec<AgentStep> = Vec::new();
    v.push(launchctl2("print", target.as_str(), true));
    assert(steps_model(v@) =~= status_steps(domain@));
    v
}

/// The steps that `command` takes in `domain`, for the agent whose property
/// list is at `plist_path` and whose control page is on `port`; installing
/// takes them after the property list and log directory are written.
pub fn handle_agent_command(command: AgentCommand, domain: &str, plist_path: &str, port: u16) -> (r:
    Vec<AgentStep>)
    ensures
        steps_model(r@) == match command {
            AgentCommand::Install => install_steps(domain@, plist_path@, port),
            AgentCommand::Uninstall => uninstall_steps(domain@, plist_path@),
            AgentCommand::Start => start_steps(domain@),
            AgentCommand::Stop => stop_steps(domain@),
            AgentCommand::Status => status_steps(domain@),
        },
{
    match command {
        AgentCommand::Install => install_agent(domain, plist_path, port),
        AgentCommand::Uninstall => uninstall_agent(domain, plist_path),
        AgentCommand::Start => start_agent(domain),
        AgentCommand::Stop => stop_agent(domain),
        AgentCommand::Status => status_agent(domain),
    }
}

/// `parts` joined with single spaces.
pub open spec fn join_spaced(parts: Seq<Seq<char>>) -> Seq<char>
    decreases parts.len(),
{
    if parts.len() == 0 {
        Seq::empty()
    } else if parts.len() == 1 {
        parts[0]
    } else {
        join_spaced(parts.drop_last()) + seq![' '] + parts.last()
    }
}

/// The text of the error that a failed `launchctl` run reports.
pub open spec fn launchctl_failure_text(parts: Seq<Seq<char>>) -> Seq<char> {
    "launchctl "@ + join_spaced(parts) + " failed"@
}

/// The error that a failed `launchctl` run reports: `launchctl <args> failed`.
pub fn launchctl_failure(args: &Vec<String>) -> (r: String)
    ensures
        r@ == launchctl_failure_text(args@.map_values(|a: String| a@)),
{
    let ghost parts = args@.map_values(|a: String| a@);
    let mut joined = String::new();
    let n = args.len();
    let mut i: usize = 0;
    while i < n
        invariant
            n == args@.len(),
            parts == args@.map_values(|a: String| a@),
            i <= n,
            joined@ == join_spaced(parts.take(i as int)),
        decreases n - i,
    {
        assert(parts.take(i + 1).drop_last() =~= parts.take(i as int));
        if i > 0 {
            proof { reveal_strlit(" "); }
            joined.append(" ");
        } else {
            assert(parts.take(1) =~= seq![parts[0]]);
        }
        joined.append(args[i].as_str());
        i = i + 1;
    }
    assert(parts.take(n as int) =~= parts);
    let mut r = String::from_str("launchctl ");
    r.append(joined.as_str());
    r.append(" failed");
    r
}

/// What a `launchctl` step's run means for the command: `ran` is whether
/// the run succeeded, or the error that kept it from starting. A step that
/// need not succeed never stops the command; one that must stops it with the
/// start error, or with `launchctl <args> failed` when the run failed.
pub fn launchctl_outcome(args: &Vec<String>, must_succeed: bool, ran: Result<bool, String>) -> (r:
    Result<(), String>)
    ensures
        !must_succeed ==> r is Ok,
        must_succeed ==> match ran {
            Ok(true) => r is Ok,
            Ok(false) => r matches Err(m) && m@ == launchctl_failure_text(
                args@.map_values(|a: String| a@),
            ),
            Err(e) => r matches Err(m) && m@ == e@,
        },
{
    if !must_succeed {
        return Ok(());
    }
    match ran {
        Ok(true) => Ok(()),
        Ok(false) => Err(launchctl_failure(args)),
        Err(e) => Err(e),
    }
}

/// Every agent command addresses the agent's own service, `<domain>/` and
/// the label: installing boots out an old copy (whose failure is ignored),
/// then bootstraps the property list, enables and kick-starts the service,
/// all of which must succeed; uninstalling boots out (ignoring failure) and
/// removes that property list; starting kick-starts, stopping sends TERM,
/// and status prints the same service.
pub proof fn agent_commands_address_the_agent(domain: Seq<char>, plist_path: Seq<char>, port: u16)
    ensures
        ({
            let target = domain + "/"@ + "dev.local.wake-nudge"@;
            &&& install_steps(domain, plist_path, port) == seq![
                StepModel::Launchctl(seq!["bootout"@, domain, plist_path], false),
                StepModel::Launchctl(seq!["bootstrap"@, domain, plist_path], true),
                StepModel::Launchctl(seq!["enable"@, target], true),
                StepModel::Launchctl(seq!["kickstart"@, "-k"@, target], true),
                StepModel::Print("installed LaunchAgent: "@ + plist_path),
                StepModel::Print("control button: http://127.0.0.1:"@ + decimal(port as nat)),
            ]
            &&& uninstall_steps(domain, plist_path) == seq![
                StepModel::Launchctl(seq!["bootout"@, domain, plist_path], false),
                StepModel::RemoveFile(plist_path),
                StepModel::Print("removed LaunchAgent: "@ + plist_path),
            ]
            &&& start_steps(domain) == seq![
                StepModel::Launchctl(seq!["kickstart"@, "-k"@, target], true),
                StepModel::Print("started LaunchAgent: "@ + "dev.local.wake-nudge"@),
            ]
            &&& stop_steps(domain) == seq![
                StepModel::Launchctl(seq!["kill"@, "TERM"@, target], true),
                StepModel::Print("stopped LaunchAgent: "@ + "dev.local.wake-nudge"@),
            ]
            &&& status_steps(domain) == seq![StepModel::Launchctl(seq!["print"@, target], true)]
        }),
{
}

/// The agent's files live under the home directory: the property list is
/// `Library/LaunchAgents/dev.local.wake-nudge.plist` and the logs are in
/// `Library/Logs/wake-nudge`, joined with single slashes.
pub proof fn agent_files_live_under_home(home: Seq<char>)
    requires
        home.len() > 0,
        home.last() != '/',
    ensures
        plist_path_of(home) == home + "/"@ + "Library"@ + "/"@ + "LaunchAgents"@ + "/"@
            + "dev.local.wake-nudge.plist"@,
        log_dir_of(home) == home + "/"@ + "Library"@ + "/"@ + "Logs"@ + "/"@ + "wake-nudge"@,
{
    reveal_strlit("/");
    reveal_strlit("Library");
    reveal_strlit("LaunchAgents");
    reveal_strlit("Logs");
    reveal_strlit("dev.local.wake-nudge");
    reveal_strlit(".plist");
    reveal_strlit("dev.local.wake-nudge.plist");
    let a = home + seq!['/'] + "Library"@;
    assert(a.last() == 'y');
    let b = a + seq!['/'] + "LaunchAgents"@;
    assert(b.last() == 's');
    let c = a + seq!['/'] + "Logs"@;
    assert(c.last() == 's');
    assert("dev.local.wake-nudge"@ + ".plist"@ =~= "dev.local.wake-nudge.plist"@);
    assert("/"@ =~= seq!['/']);
    assert(plist_path_of(home) =~= home + "/"@ + "Library"@ + "/"@ + "LaunchAgents"@ + "/"@
        + "dev.local.wake-nudge.plist"@);
    assert(log_dir_of(home) =~= home + "/"@ + "Library"@ + "/"@ + "Logs"@ + "/"@ + "wake-nudge"@);
}

/// The user's launchd domain is `gui/` followed by the user id.
pub proof fn domain_is_gui_and_uid(uid: Seq<char>)
    ensures
        gui_domain_of(uid) == seq!['g', 'u', 'i', '/'] + uid,
{
    reveal_strlit("gui/");
    assert("gui/"@ =~= seq!['g', 'u', 'i', '/']);
}

/// A failed run is reported with its arguments separated by single spaces:
/// one argument stands alone, and each further one follows a space.
pub proof fn failure_lists_the_arguments(parts: Seq<Seq<char>>, a: Seq<char>)
    ensures
        join_spaced(seq![a]) == a,
        parts.len() > 0 ==> join_spaced(parts.push(a)) == join_spaced(parts) + seq![' '] + a,
        launchctl_failure_text(parts) == "launchctl "@ + join_spaced(parts) + " failed"@,
{
    assert(parts.push(a).drop_last() =~= parts);
}

} // verus!
