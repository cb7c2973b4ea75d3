//! Track codes: the three textual forms under which one numeric code may be
//! stored (as given, zero-padded to five digits, without leading zeros).
use vstd::prelude::*;
use crate::text::same_text;

verus! {

pub open spec fn is_digit(c: char) -> bool {
    '0' <= c && c <= '9'
}

pub open spec fn all_digits(s: Seq<char>) -> bool {
    forall|i: int| 0 <= i < s.len() ==> is_digit(#[trigger] s[i])
}

/// `s` left-padded with `'0'` to five characters (unchanged when already longer).
pub open spec fn pad5(s: Seq<char>) -> Seq<char> {
    if s.len() >= 5 {
        s
    } else {
        Seq::new((5 - s.len()) as nat, |_i: int| '0') + s
    }
}

/// `s` without its leading `'0'`s, or `"0"` when nothing else is left.
pub open spec fn strip_zeros(s: Seq<char>) -> Seq<char>
    decreases s.len(),
{
    if s.len() == 0 {
        seq!['0']
    } else if s[0] == '0' {
        strip_zeros(s.drop_first())
    } else {
        s
    }
}

/// The forms tried, in order, when a code is matched: the code itself, then for
/// an all-digit code its padded and its stripped form, each only where it differs.
pub open spec fn variants(s: Seq<char>) -> Seq<Seq<char>> {
    if !all_digits(s) {
        seq![s]
    } else {
        let a = if pad5(s) != s { seq![s, pad5(s)] } else { seq![s] };
        if strip_zeros(s) != s { a.push(strip_zeros(s)) } else { a }
    }
}

/// The canonical form of a code for lookups: a four- or five-digit code padded
/// to five digits, any other code as it is.
pub open spec fn normalized(s: Seq<char>) -> Seq<char> {
    if all_digits(s) && 4 <= s.len() <= 5 {
        pad5(s)
    } else {
        s
    }
}

pub fn digits_only(s: &str) -> (r: bool)
    ensures
        r == all_digits(s@),
{
    let n = s.unicode_len();
    let mut i: usize = 0;
    while i < n
        invariant
            n == s@.len(),
            i <= n,
            forall|j: int| 0 <= j < i ==> is_digit(#[trigger] s@[j]),
        decreases n - i,
    {
        let c = s.get_char(i);
        if !('0' <= c && c <= '9') {
            return false;
        }
        i = i + 1;
    }
    true
}

pub fn padded5(s: &str) -> (r: String)
    ensures
        r@ == pad5(s@),
{
    let n = s.unicode_len();
    let mut out = String::new();
    if n < 5 {
        let fill: usize = 5 - n;
        let mut k: usize = 0;
        proof {
            reveal_strlit("0");
        }
        while k < fill
            invariant
                k <= fill,
                fill == 5 - n,
                "0"@ == seq!['0'],
                out@ == Seq::new(k as nat, |_i: int| '0'),
            decreases fill - k,
        {
            out.append("0");
            k = k + 1;
            assert(out@ =~= Seq::new(k as nat, |_i: int| '0'));
        }
    }
    out.append(s);
    assert(out@ =~= pad5(s@));
    out
}

proof fn lemma_strip_prefix(s: Seq<char>, k: int)
    requires
        0 <= k <= s.len(),
        forall|j: int| 0 <= j < k ==> s[j] == '0',
    ensures
        strip_zeros(s) == strip_zeros(s.subrange(k, s.len() as int)),
    decreases k,
{
    if k > 0 {
        assert(s.drop_first() =~= s.subrange(1, s.len() as int));
        let t = s.drop_first();
        lemma_strip_prefix(t, k - 1);
        assert(t.subrange(k - 1, t.len() as int) =~= s.subrange(k, s.len() as int));
    } else {
        assert(s.subrange(0, s.len() as int) =~= s);
    }
}

pub fn stripped(s: &str) -> (r: String)
    ensures
        r@ == strip_zeros(s@),
{
    let n = s.unicode_len();
    let mut k: usize = 0;
    while k < n && s.get_char(k) == '0'
        invariant
            n == s@.len(),
            k <= n,
            forall|j: int| 0 <= j < k ==> s@[j] == '0',
        decreases n - k,
    {
        k = k + 1;
    }
    proof {
        lemma_strip_prefix(s@, k as int);
    }
    if k == n {
        proof {
            reveal_strlit("0");
            assert(s@.subrange(k as int, n as int) =~= Seq::<char>::empty());
        }
        "0".to_string()
    } else {
        s.substring_char(k, n).to_string()
    }
}

/// Codes tried in order when a track is looked up.
pub fn codigo_variantes(codigo: &str) -> (r: Vec<String>)
    ensures
        r.deep_view() == variants(codigo@),
{
    let mut out: Vec<String> = Vec::new();
    out.push(codigo.to_string());
    if !digits_only(codigo) {
        assert(out.deep_view() =~= variants(codigo@));
        return out;
    }
    let padded = padded5(codigo);
    if !same_text(padded.as_str(), codigo) {
        out.push(padded);
    }
    assert(out.deep_view() =~= (if pad5(codigo@) != codigo@ {
        seq![codigo@, pad5(codigo@)]
    } else {
        seq![codigo@]
    }));
    let trimmed = stripped(codigo);
    let ghost before = out.deep_view();
    if !same_text(trimmed.as_str(), codigo) {
        out.push(trimmed);
        assert(out.deep_view() =~= before.push(strip_zeros(codigo@)));
    }
    out
}

/// The canonical form of an already trimmed code; see `normalized`.
pub fn normaliza_codigo(codigo: &str) -> (r: String)
    ensures
        r@ == normalized(codigo@),
{
    let n = codigo.unicode_len();
    if digits_only(codigo) && 4 <= n && n <= 5 {
        padded5(codigo)
    } else {
        codigo.to_string()
    }
}

} // verus!
