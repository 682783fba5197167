//! Text helpers: comparison, case folding and decimal digits.
use vstd::prelude::*;

verus! {

/// What `str::to_lowercase` gives on `s`.
pub uninterp spec fn lower_of(s: Seq<char>) -> Seq<char>;

/// Relies on `str::to_lowercase`: the lower-case form of `s`, which depends on
/// its characters alone.
#[verifier::external_body]
pub(crate) fn lowercase(s: &str) -> (r: String)
    ensures
        r@ == lower_of(s@),
{
    s.to_lowercase()
}

/// Whether `a` and `b` hold the same characters.
pub fn str_equal(a: &str, b: &str) -> (r: bool)
    ensures
        r == (a@ == b@),
{
    let n = a.unicode_len();
    if n != b.unicode_len() {
        return false;
    }
    let mut i: usize = 0;
    while i < n
        invariant
            i <= n,
            n == a@.len(),
            n == b@.len(),
            a@.subrange(0, i as int) == b@.subrange(0, i as int),
        decreases n - i,
    {
        if a.get_char(i) != b.get_char(i) {
            return false;
        }
        assert(a@.subrange(0, i as int + 1) == a@.subrange(0, i as int).push(a@[i as int]));
        assert(b@.subrange(0, i as int + 1) == b@.subrange(0, i as int).push(b@[i as int]));
        i = i + 1;
    }
    assert(a@.subrange(0, n as int) == a@);
    assert(b@.subrange(0, n as int) == b@);
    true
}

/// Relies on `String::push`, which appends `ch` to the end of `s`.
pub assume_specification[ String::push ](s: &mut String, ch: char)
    ensures
        final(s)@ == old(s)@.push(ch),
;

/// The character of the decimal digit `d`.
pub open spec fn digit_char(d: nat) -> char {
    ((48 + d) as u8) as char
}

/// The decimal digits of `n`, most significant first, without leading zeros.
pub open spec fn decimal(n: nat) -> Seq<char>
    decreases n,
{
    if n < 10 {
        seq![digit_char(n)]
    } else {
        decimal(n / 10).push(digit_char(n % 10))
    }
}

/// The decimal digits of `n`, with zeros in front to make at least `width` of them.
pub open spec fn padded_decimal(n: nat, width: nat) -> Seq<char> {
    let d = decimal(n);
    if d.len() >= width {
        d
    } else {
        Seq::new((width - d.len()) as nat, |i: int| '0') + d
    }
}

/// The decimal digits of `n`.
pub fn decimal_digits(n: u64) -> (r: Vec<char>)
    ensures
        r@ == decimal(n as nat),
    decreases n,
{
    if n < 10 {
        let mut v: Vec<char> = Vec::new();
        v.push(((48 + n) as u8) as char);
        v
    } else {
        let mut v = decimal_digits(n / 10);
        v.push(((48 + n % 10) as u8) as char);
        v
    }
}

/// Appends the characters of `cs` to `s`.
pub fn push_chars(s: &mut String, cs: &Vec<char>)
    ensures
        final(s)@ == old(s)@ + cs@,
{
    let mut i: usize = 0;
    while i < cs.len()
        invariant
            i <= cs@.len(),
            s@ == old(s)@ + cs@.subrange(0, i as int),
        decreases cs@.len() - i,
    {
        s.push(cs[i]);
        assert(cs@.subrange(0, i as int + 1) == cs@.subrange(0, i as int).push(cs@[i as int]));
        i = i + 1;
    }
    assert(cs@.subrange(0, cs@.len() as int) == cs@);
}

/// Appends the decimal digits of `n` to `s`, with zeros in front to make at
/// least `width` of them.
pub fn push_padded(s: &mut String, n: u64, width: usize)
    ensures
        final(s)@ == old(s)@ + padded_decimal(n as nat, width as nat),
{
    let d = decimal_digits(n);
    let ghost start = s@;
    if d.len() < width {
        let mut k: usize = 0;
        let pad: usize = width - d.len();
        while k < pad
            invariant
                k <= pad,
                s@ == start + Seq::new(k as nat, |i: int| '0'),
            decreases pad - k,
        {
            s.push('0');
            assert(Seq::new(k as nat + 1, |i: int| '0') == Seq::new(k as nat, |i: int| '0').push('0'));
            k = k + 1;
        }
    }
    push_chars(s, &d);
}

/// Appends the characters of `t` to `s`.
pub fn push_str(s: &mut String, t: &str)
    ensures
        final(s)@ == old(s)@ + t@,
{
    s.append(t);
}

/// Whether `c` is ASCII white space.
pub open spec fn is_ascii_ws(c: char) -> bool {
    c == ' ' || c == '\t' || c == '\n' || c == '\r' || c == '\x0C'
}

/// The pieces of `s` between occurrences of `sep`, empty ones included.
pub open spec fn split_spec(s: Seq<char>, sep: char) -> Seq<Seq<char>>
    decreases s.len(),
{
    if s.len() == 0 {
        seq![Seq::empty()]
    } else {
        let prev = split_spec(s.drop_last(), sep);
        if s.last() == sep {
            prev.push(Seq::empty())
        } else {
            prev.update(prev.len() - 1, prev.last().push(s.last()))
        }
    }
}

pub proof fn lemma_split_nonempty(s: Seq<char>, sep: char)
    ensures
        split_spec(s, sep).len() >= 1,
    decreases s.len(),
{
    if s.len() > 0 {
        lemma_split_nonempty(s.drop_last(), sep);
    }
}

/// The maximal runs of `s` without ASCII white space.
pub open spec fn ws_tokens(s: Seq<char>) -> Seq<Seq<char>>
    decreases s.len(),
{
    if s.len() == 0 {
        Seq::empty()
    } else {
        let prev = ws_tokens(s.drop_last());
        let c = s.last();
        if is_ascii_ws(c) {
            prev
        } else if s.len() >= 2 && !is_ascii_ws(s[s.len() - 2]) && prev.len() > 0 {
            prev.update(prev.len() - 1, prev.last().push(c))
        } else {
            prev.push(seq![c])
        }
    }
}

pub open spec fn string_views(v: Seq<String>) -> Seq<Seq<char>> {
    v.map_values(|x: String| x@)
}

fn is_ws(c: char) -> (r: bool)
    ensures
        r == is_ascii_ws(c),
{
    c == ' ' || c == '\t' || c == '\n' || c == '\r' || c == '\x0C'
}

/// The pieces of `s` between occurrences of `sep`.
pub fn split_char(s: &str, sep: char) -> (r: Vec<String>)
    ensures
        string_views(r@) == split_spec(s@, sep),
{
    let n = s.unicode_len();
    let mut pieces: Vec<String> = Vec::new();
    let mut cur = String::new();
    let mut i: usize = 0;
    while i < n
        invariant
            i <= n,
            n == s@.len(),
            string_views(pieces@).push(cur@) == split_spec(s@.subrange(0, i as int), sep),
        decreases n - i,
    {
        let c = s.get_char(i);
        let ghost sub = s@.subrange(0, i as int + 1);
        assert(sub.drop_last() == s@.subrange(0, i as int));
        assert(sub.last() == c);
        if c == sep {
            let ghost before = pieces@;
            pieces.push(cur);
            cur = String::new();
            assert(string_views(pieces@) == string_views(before).push(string_views(pieces@).last()));
        } else {
            let ghost before = string_views(pieces@).push(cur@);
            cur.push(c);
            assert(string_views(pieces@).push(cur@) == before.update(before.len() - 1, before.last().push(c)));
        }
        i = i + 1;
    }
    assert(s@.subrange(0, n as int) == s@);
    let ghost before = pieces@;
    pieces.push(cur);
    assert(string_views(pieces@) == string_views(before).push(string_views(pieces@).last()));
    pieces
}

/// The maximal runs of `s` without ASCII white space.
pub fn split_ascii_ws(s: &str) -> (r: Vec<String>)
    ensures
        string_views(r@) == ws_tokens(s@),
{
    let n = s.unicode_len();
    let mut tokens: Vec<String> = Vec::new();
    let mut i: usize = 0;
    let mut in_token = false;
    while i < n
        invariant
            i <= n,
            n == s@.len(),
            string_views(tokens@) == ws_tokens(s@.subrange(0, i as int)),
            in_token == (i > 0 && !is_ascii_ws(s@[i - 1])),
            in_token ==> tokens@.len() > 0,
        decreases n - i,
    {
        let c = s.get_char(i);
        let ghost sub = s@.subrange(0, i as int + 1);
        assert(sub.drop_last() == s@.subrange(0, i as int));
        assert(sub.last() == c);
        if is_ws(c) {
            in_token = false;
        } else if in_token {
            assert(sub[sub.len() - 2] == s@[i - 1]);
            let last = tokens.len() - 1;
            let ghost before = string_views(tokens@);
            let mut t = tokens[last].clone();
            t.push(c);
            tokens.set(last, t);
            assert(string_views(tokens@) == before.update(before.len() - 1, before.last().push(c)));
        } else {
            let ghost before = string_views(tokens@);
            let mut t = String::new();
            t.push(c);
            tokens.push(t);
            assert(t@ == seq![c]);
            assert(string_views(tokens@) == before.push(seq![c]));
            in_token = true;
        }
        i = i + 1;
    }
    assert(s@.subrange(0, n as int) == s@);
    tokens
}

/// The value of the decimal digits `s`; `None` where `s` is empty or holds
/// anything but ASCII digits.
pub open spec fn decimal_value(s: Seq<char>) -> Option<nat>
    decreases s.len(),
{
    if s.len() == 0 {
        None
    } else if !('0' <= s.last() && s.last() <= '9') {
        None
    } else if s.len() == 1 {
        Some((s.last() as nat - '0' as nat) as nat)
    } else {
        match decimal_value(s.drop_last()) {
            Some(v) => Some(v * 10 + (s.last() as nat - '0' as nat) as nat),
            None => None,
        }
    }
}

proof fn lemma_decimal_prefix_none(s: Seq<char>, k: int)
    requires
        1 <= k <= s.len(),
        decimal_value(s.subrange(0, k)) is None,
    ensures
        decimal_value(s) is None,
    decreases s.len() - k,
{
    if k < s.len() {
        let sub = s.subrange(0, k + 1);
        assert(sub.drop_last() == s.subrange(0, k));
        lemma_decimal_prefix_none(s, k + 1);
    } else {
        assert(s.subrange(0, k) == s);
    }
}

proof fn lemma_decimal_prefix_big(s: Seq<char>, k: int, max: nat)
    requires
        1 <= k <= s.len(),
        decimal_value(s.subrange(0, k)) is None || decimal_value(s.subrange(0, k))->0 > max,
    ensures
        decimal_value(s) is None || decimal_value(s)->0 > max,
    decreases s.len() - k,
{
    if k < s.len() {
        let sub = s.subrange(0, k + 1);
        assert(sub.drop_last() == s.subrange(0, k));
        lemma_decimal_prefix_big(s, k + 1, max);
    } else {
        assert(s.subrange(0, k) == s);
    }
}

/// The value of the decimal digits `s`, where it is at most `max`.
pub fn parse_decimal(s: &str, max: u64) -> (r: Option<u64>)
    ensures
        r is Some <==> (decimal_value(s@) is Some && decimal_value(s@)->0 <= max),
        r is Some ==> r->0 == decimal_value(s@)->0,
{
    let n = s.unicode_len();
    if n == 0 {
        return None;
    }
    let mut v: u64 = 0;
    let mut i: usize = 0;
    while i < n
        invariant
            1 <= n == s@.len(),
            i <= n,
            i == 0 ==> v == 0,
            i > 0 ==> decimal_value(s@.subrange(0, i as int)) == Some(v as nat),
            v <= max,
        decreases n - i,
    {
        let c = s.get_char(i);
        let ghost sub = s@.subrange(0, i as int + 1);
        assert(sub.drop_last() == s@.subrange(0, i as int));
        assert(sub.last() == c);
        if !('0' <= c && c <= '9') {
            proof {
                lemma_decimal_prefix_none(s@, i as int + 1);
            }
            return None;
        }
        let d: u64 = (c as u32 - '0' as u32) as u64;
        assert(decimal_value(sub) == Some((v * 10 + d) as nat) || (i == 0 && decimal_value(sub) == Some(d as nat)));
        if d > max || v > (max - d) / 10 {
            proof {
                if d <= max {
                    assert(v * 10 + d > max) by (nonlinear_arith)
                        requires v > (max - d) / 10, d <= max;
                }
                lemma_decimal_prefix_big(s@, i as int + 1, max as nat);
            }
            return None;
        }
        assert(v * 10 + d <= max) by (nonlinear_arith)
            requires v <= (max - d) / 10, d <= max;
        v = v * 10 + d;
        i = i + 1;
    }
    assert(s@.subrange(0, n as int) == s@);
    Some(v)
}

} // verus!
