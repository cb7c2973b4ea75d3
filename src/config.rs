//! `KEY=value` settings files: which lines set which variables.
use vstd::prelude::*;
use crate::text::{trim_of, trimmed};

verus! {

/// `l` without one carriage return at its end.
pub open spec fn strip_cr(l: Seq<char>) -> Seq<char> {
    if l.len() > 0 && l.last() == '\r' {
        l.drop_last()
    } else {
        l
    }
}

/// The lines of `s[i..]`, `cur` being the part of the current line read so far:
/// each `\n` ends a line (dropping one `\r` before it), and a last line not ended
/// by `\n` counts when it is not empty. This is how `str::lines` splits text.
pub open spec fn lines_from(s: Seq<char>, i: int, cur: Seq<char>) -> Seq<Seq<char>>
    decreases s.len() - i,
{
    if i < 0 || i >= s.len() {
        if cur.len() == 0 {
            Seq::empty()
        } else {
            seq![cur]
        }
    } else if s[i] == '\n' {
        seq![strip_cr(cur)] + lines_from(s, i + 1, Seq::empty())
    } else {
        lines_from(s, i + 1, cur.push(s[i]))
    }
}

pub open spec fn lines_of(s: Seq<char>) -> Seq<Seq<char>> {
    lines_from(s, 0, Seq::empty())
}

/// The lines of a text; see `lines_from`.
fn text_lines(s: &str) -> (r: Vec<String>)
    ensures
        r.deep_view() == lines_of(s@),
{
    let n = s.unicode_len();
    let mut out: Vec<String> = Vec::new();
    let mut cur = String::new();
    let mut i: usize = 0;
    while i < n
        invariant
            n == s@.len(),
            i <= n,
            out.deep_view() + lines_from(s@, i as int, cur@) == lines_of(s@),
        decreases n - i,
    {
        let c = s.get_char(i);
        if c == '\n' {
            let m = cur.as_str().unicode_len();
            let line = if m > 0 && cur.as_str().get_char(m - 1) == '\r' {
                cur.as_str().substring_char(0, m - 1).to_string()
            } else {
                cur.clone()
            };
            assert(line@ =~= strip_cr(cur@));
            let ghost before = out.deep_view();
            out.push(line);
            assert(out.deep_view() =~= before.push(strip_cr(cur@)));
            assert(before + lines_from(s@, i as int, cur@) =~= out.deep_view() + lines_from(
                s@,
                i + 1,
                Seq::empty(),
            ));
            cur = String::new();
        } else {
            let ghost old_cur = cur@;
            cur.append(s.substring_char(i, i + 1));
            assert(cur@ =~= old_cur.push(s@[i as int]));
        }
        i = i + 1;
    }
    if cur.as_str().unicode_len() > 0 {
        let ghost before = out.deep_view();
        let ghost last = cur@;
        out.push(cur);
        assert(out.deep_view() =~= before + seq![last]);
    } else {
        assert(out.deep_view() =~= out.deep_view() + Seq::<Seq<char>>::empty());
    }
    out
}

pub open spec fn is_quote(c: char) -> bool {
    c == '"' || c == '\''
}

/// Number of quote characters at the start of `s`.
pub open spec fn leading_quotes(s: Seq<char>) -> int
    decreases s.len(),
{
    if s.len() > 0 && is_quote(s[0]) {
        1 + leading_quotes(s.drop_first())
    } else {
        0
    }
}

/// Number of quote characters at the end of `s`.
pub open spec fn trailing_quotes(s: Seq<char>) -> int
    decreases s.len(),
{
    if s.len() > 0 && is_quote(s.last()) {
        1 + trailing_quotes(s.drop_last())
    } else {
        0
    }
}

/// `s` without the quote characters at either end.
pub open spec fn unquoted(s: Seq<char>) -> Seq<char> {
    let rest = s.subrange(leading_quotes(s), s.len() as int);
    rest.subrange(0, rest.len() - trailing_quotes(rest))
}

/// Position of the first `c` at or after `i`.
pub open spec fn index_from(s: Seq<char>, c: char, i: int) -> Option<int>
    decreases s.len() - i,
{
    if i < 0 || i >= s.len() {
        None
    } else if s[i] == c {
        Some(i)
    } else {
        index_from(s, c, i + 1)
    }
}

/// The variable a line sets: blank lines, `#` comments and lines without `=`
/// set none; otherwise the trimmed text before the first `=` names it (when not
/// empty) and the trimmed, unquoted text after it is its value.
pub open spec fn env_entry(line: Seq<char>) -> Option<(Seq<char>, Seq<char>)> {
    let t = trim_of(line);
    if t.len() == 0 || t[0] == '#' {
        None
    } else {
        match index_from(t, '=', 0) {
            None => None,
            Some(p) => {
                let key = trim_of(t.subrange(0, p));
                if key.len() == 0 {
                    None
                } else {
                    Some((key, unquoted(trim_of(t.subrange(p + 1, t.len() as int)))))
                }
            },
        }
    }
}

/// The settings of the first `n` lines, in order.
pub open spec fn env_entries(ls: Seq<Seq<char>>, n: int) -> Seq<(Seq<char>, Seq<char>)>
    decreases n,
{
    if n <= 0 {
        Seq::empty()
    } else {
        match env_entry(ls[n - 1]) {
            Some(e) => env_entries(ls, n - 1).push(e),
            None => env_entries(ls, n - 1),
        }
    }
}

pub open spec fn pairs_view(v: Seq<(String, String)>) -> Seq<(Seq<char>, Seq<char>)> {
    v.map_values(|p: (String, String)| (p.0@, p.1@))
}

proof fn lemma_leading_step(s: Seq<char>, k: int)
    requires
        0 <= k <= s.len(),
        forall|j: int| 0 <= j < k ==> is_quote(s[j]),
        k == s.len() || !is_quote(s[k]),
    ensures
        leading_quotes(s) == k,
    decreases k,
{
    if k > 0 {
        lemma_leading_step(s.drop_first(), k - 1);
    }
}

proof fn lemma_trailing_step(s: Seq<char>, k: int)
    requires
        0 <= k <= s.len(),
        forall|j: int| s.len() - k <= j < s.len() ==> is_quote(s[j]),
        k == s.len() || !is_quote(s[s.len() - k - 1]),
    ensures
        trailing_quotes(s) == k,
    decreases k,
{
    if k > 0 {
        lemma_trailing_step(s.drop_last(), k - 1);
    }
}

fn unquote(s: &str) -> (r: String)
    ensures
        r@ == unquoted(s@),
{
    let n = s.unicode_len();
    let mut a: usize = 0;
    while a < n && (s.get_char(a) == '"' || s.get_char(a) == '\'')
        invariant
            n == s@.len(),
            a <= n,
            forall|j: int| 0 <= j < a ==> is_quote(s@[j]),
        decreases n - a,
    {
        a = a + 1;
    }
    proof {
        lemma_leading_step(s@, a as int);
    }
    let rest = s.substring_char(a, n);
    let m = rest.unicode_len();
    let mut k: usize = 0;
    while k < m && (rest.get_char(m - k - 1) == '"' || rest.get_char(m - k - 1) == '\'')
        invariant
            m == rest@.len(),
            k <= m,
            forall|j: int| m - k <= j < m ==> is_quote(rest@[j]),
        decreases m - k,
    {
        k = k + 1;
    }
    proof {
        lemma_trailing_step(rest@, k as int);
    }
    rest.substring_char(0, m - k).to_string()
}

fn first_equals(t: &str) -> (r: Option<usize>)
    ensures
        match index_from(t@, '=', 0) {
            Some(p) => r == Some(p as usize) && 0 <= p < t@.len(),
            None => r is None,
        },
{
    let n = t.unicode_len();
    let mut i: usize = 0;
    while i < n
        invariant
            n == t@.len(),
            i <= n,
            index_from(t@, '=', 0) == index_from(t@, '=', i as int),
        decreases n - i,
    {
        if t.get_char(i) == '=' {
            return Some(i);
        }
        i = i + 1;
    }
    None
}

/// The variable one line sets, if any; see `env_entry`.
pub fn parse_env_line(line: &str) -> (r: Option<(String, String)>)
    ensures
        match env_entry(line@) {
            Some((k, v)) => r matches Some((a, b)) && a@ == k && b@ == v,
            None => r is None,
        },
{
    let t = trimmed(line);
    let n = t.unicode_len();
    if n == 0 || t.get_char(0) == '#' {
        return None;
    }
    match first_equals(t) {
        None => None,
        Some(p) => {
            let key = trimmed(t.substring_char(0, p));
            if key.unicode_len() == 0 {
                return None;
            }
            let value = unquote(trimmed(t.substring_char(p + 1, n)));
            Some((key.to_string(), value))
        },
    }
}

/// The variables a settings text sets, line by line in order.
pub fn parse_env(content: &str) -> (r: Vec<(String, String)>)
    ensures
        pairs_view(r@) == env_entries(lines_of(content@), lines_of(content@).len() as int),
{
    let ls = text_lines(content);
    let ghost lv = ls.deep_view();
    let mut out: Vec<(String, String)> = Vec::new();
    let mut i: usize = 0;
    while i < ls.len()
        invariant
            lv == ls.deep_view(),
            lv == lines_of(content@),
            i <= ls.len(),
            pairs_view(out@) == env_entries(lv, i as int),
        decreases ls.len() - i,
    {
        assert(lv[i as int] == ls@[i as int]@);
        let ghost before = pairs_view(out@);
        match parse_env_line(ls[i].as_str()) {
            Some(p) => {
                out.push(p);
                assert(pairs_view(out@) =~= before.push(env_entry(lv[i as int])->0));
            },
            None => {},
        }
        i = i + 1;
    }
    out
}

} // verus!
