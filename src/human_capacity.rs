//! Capacities written in whole units: a whole part, a point, and up to eight
//! decimals of shannons.
use crate::text::{decimal, decimal_digits, decimal_value, is_ascii_ws, padded_decimal, parse_decimal, push_chars, push_str, split_char, split_spec};
use vstd::prelude::*;

verus! {

/// Shannons in one whole unit.
pub const ONE_CKB: u64 = 100_000_000;

/// A capacity in shannons, written in whole units.
#[derive(Default, Clone, Copy, Debug, PartialEq, Eq, Hash, PartialOrd, Ord)]
pub struct HumanCapacity(pub u64);

/// How many of the last `k` decimals of `n` are zeros, counted from the end.
pub open spec fn trailing_zeros(n: nat, k: nat) -> nat
    decreases k,
{
    if k == 0 {
        0
    } else if n % 10 == 0 {
        1 + trailing_zeros(n / 10, (k - 1) as nat)
    } else {
        0
    }
}

/// The decimals of `shannons` (below one unit): eight digits without the
/// trailing zeros, but at least one.
pub open spec fn fraction_of(shannons: nat) -> Seq<char> {
    padded_decimal(shannons, 8).subrange(0, 8 - trailing_zeros(shannons, 7))
}

/// How the capacity `v` is written: whole units, a point and the decimals,
/// then ` (CKB)` where `with_unit`.
pub open spec fn human_of(v: u64, with_unit: bool) -> Seq<char> {
    decimal((v / ONE_CKB) as nat) + seq!['.'] + fraction_of((v % ONE_CKB) as nat) + if with_unit {
        " (CKB)"@
    } else {
        Seq::empty()
    }
}

pub open spec fn pow10(k: nat) -> nat
    decreases k,
{
    if k == 0 {
        1
    } else {
        10 * pow10((k - 1) as nat)
    }
}

proof fn lemma_decimal_len(n: nat, k: nat)
    requires
        1 <= k,
        n < pow10(k),
    ensures
        decimal(n).len() <= k,
    decreases n,
{
    if n >= 10 {
        assert(k >= 2) by {
            if k == 1 {
                assert(pow10(0) == 1);
                assert(pow10(1) == 10);
            }
        }
        assert(n / 10 < pow10((k - 1) as nat));
        lemma_decimal_len(n / 10, (k - 1) as nat);
    }
}

proof fn lemma_trailing_zeros_bound(n: nat, k: nat)
    ensures
        trailing_zeros(n, k) <= k,
    decreases k,
{
    if k > 0 {
        lemma_trailing_zeros_bound(n / 10, (k - 1) as nat);
    }
}

impl HumanCapacity {
    /// The capacity written as `whole.decimals`, followed by ` (CKB)` where
    /// `with_unit`.
    pub fn to_human(&self, with_unit: bool) -> (r: String)
        ensures
            r@ == human_of(self.0, with_unit),
    {
        let ckb = self.0 / ONE_CKB;
        let shannons = self.0 % ONE_CKB;
        let mut s = String::new();
        let w = decimal_digits(ckb);
        push_chars(&mut s, &w);
        s.push('.');
        let d = decimal_digits(shannons);
        proof {
            assert(pow10(0) == 1);
            assert(pow10(1) == 10);
            assert(pow10(2) == 100);
            assert(pow10(3) == 1000);
            assert(pow10(4) == 10000);
            assert(pow10(5) == 100000);
            assert(pow10(6) == 1000000);
            assert(pow10(7) == 10000000);
            assert(pow10(8) == 100000000);
            lemma_decimal_len(shannons as nat, 8);
        }
        let mut digits: Vec<char> = Vec::new();
        let pad: usize = 8 - d.len();
        let mut k: usize = 0;
        while k < pad
            invariant
                k <= pad,
                digits@ == Seq::new(k as nat, |i: int| '0'),
            decreases pad - k,
        {
            digits.push('0');
            assert(Seq::new(k as nat + 1, |i: int| '0') == Seq::new(k as nat, |i: int| '0').push('0'));
            k = k + 1;
        }
        let mut q: usize = 0;
        while q < d.len()
            invariant
                q <= d@.len(),
                digits@ == Seq::new(pad as nat, |i: int| '0') + d@.subrange(0, q as int),
            decreases d@.len() - q,
        {
            digits.push(d[q]);
            assert(d@.subrange(0, q as int + 1) == d@.subrange(0, q as int).push(d@[q as int]));
            q = q + 1;
        }
        assert(d@.subrange(0, d@.len() as int) == d@);
        assert(digits@ == padded_decimal(shannons as nat, 8));
        let mut zeros: usize = 0;
        let mut rest: u64 = shannons;
        while zeros < 7 && rest % 10 == 0
            invariant
                zeros <= 7,
                trailing_zeros(shannons as nat, 7) == zeros + trailing_zeros(rest as nat, (7 - zeros) as nat),
            decreases 7 - zeros,
        {
            rest = rest / 10;
            zeros = zeros + 1;
        }
        proof {
            lemma_trailing_zeros_bound(shannons as nat, 7);
        }
        assert(trailing_zeros(shannons as nat, 7) == zeros);
        let keep: usize = 8 - zeros;
        let mut q: usize = 0;
        let ghost before = s@;
        while q < keep
            invariant
                q <= keep,
                keep <= 8,
                digits@.len() == 8,
                s@ == before + digits@.subrange(0, q as int),
            decreases keep - q,
        {
            s.push(digits[q]);
            assert(digits@.subrange(0, q as int + 1) == digits@.subrange(0, q as int).push(digits@[q as int]));
            q = q + 1;
        }
        if with_unit {
            push_str(&mut s, " (CKB)");
        }
        s
    }
}

/// The unit that may follow a capacity.
pub open spec fn unit_suffix() -> Seq<char> {
    seq!['(', 'C', 'K', 'B', ')']
}

/// `s` without any repetition of the unit at its end.
pub open spec fn strip_unit(s: Seq<char>) -> Seq<char>
    decreases s.len(),
{
    if s.len() >= 5 && s.subrange(s.len() - 5, s.len() as int) == unit_suffix() {
        strip_unit(s.subrange(0, s.len() - 5))
    } else {
        s
    }
}

/// `s` without ASCII white space at its end.
pub open spec fn trim_end(s: Seq<char>) -> Seq<char>
    decreases s.len(),
{
    if s.len() > 0 && is_ascii_ws(s.last()) {
        trim_end(s.drop_last())
    } else {
        s
    }
}

/// `s` without ASCII white space in front.
pub open spec fn trim_start(s: Seq<char>) -> Seq<char>
    decreases s.len(),
{
    if s.len() > 0 && is_ascii_ws(s[0]) {
        trim_start(s.drop_first())
    } else {
        s
    }
}

/// `s` without ASCII white space at either end.
pub open spec fn trim(s: Seq<char>) -> Seq<char> {
    trim_start(trim_end(s))
}

/// The capacity, in shannons, that `s` writes: whole units, then optionally
/// a point and at most eight decimals, then optionally the unit.
pub open spec fn capacity_of_text(s: Seq<char>) -> Option<nat> {
    let parts = split_spec(trim(strip_unit(s)), '.');
    match decimal_value(parts[0]) {
        None => None,
        Some(w) => if parts.len() < 2 {
            Some(w * (ONE_CKB as nat))
        } else {
            let f = trim(parts[1]);
            if f.len() > 8 {
                None
            } else {
                match decimal_value(f) {
                    None => None,
                    Some(v) => Some(w * (ONE_CKB as nat) + v * pow10((8 - f.len()) as nat)),
                }
            }
        },
    }
}

/// `s` without ASCII white space at either end.
pub fn trim_str(s: &str) -> (r: String)
    ensures
        r@ == trim(s@),
{
    let n = s.unicode_len();
    let mut hi: usize = n;
    assert(s@.subrange(0, n as int) == s@);
    while hi > 0 && is_ws_char(s.get_char(hi - 1))
        invariant
            hi <= n == s@.len(),
            trim_end(s@) == trim_end(s@.subrange(0, hi as int)),
        decreases hi,
    {
        assert(s@.subrange(0, hi as int).drop_last() == s@.subrange(0, hi as int - 1));
        hi = hi - 1;
    }
    let mut lo: usize = 0;
    assert(s@.subrange(0, hi as int).subrange(0, hi as int) == s@.subrange(0, hi as int));
    while lo < hi && is_ws_char(s.get_char(lo))
        invariant
            lo <= hi <= n == s@.len(),
            trim_end(s@) == s@.subrange(0, hi as int),
            trim(s@) == trim_start(s@.subrange(lo as int, hi as int)),
        decreases hi - lo,
    {
        assert(s@.subrange(lo as int, hi as int).drop_first() == s@.subrange(lo as int + 1, hi as int));
        lo = lo + 1;
    }
    s.substring_char(lo, hi).to_owned()
}

fn is_ws_char(c: char) -> (r: bool)
    ensures
        r == is_ascii_ws(c),
{
    c == ' ' || c == '\t' || c == '\n' || c == '\r' || c == '\x0C'
}

/// `s` without any repetition of the unit at its end.
pub fn strip_unit_str(s: &str) -> (r: String)
    ensures
        r@ == strip_unit(s@),
{
    let n = s.unicode_len();
    let mut hi: usize = n;
    assert(s@.subrange(0, n as int) == s@);
    loop
        invariant
            hi <= n == s@.len(),
            strip_unit(s@) == strip_unit(s@.subrange(0, hi as int)),
        ensures
            hi <= n,
            strip_unit(s@) == s@.subrange(0, hi as int),
        decreases hi,
    {
        if hi < 5 {
            break;
        }
        let ends = s.get_char(hi - 5) == '(' && s.get_char(hi - 4) == 'C' && s.get_char(hi - 3) == 'K'
            && s.get_char(hi - 2) == 'B' && s.get_char(hi - 1) == ')';
        let ghost sub = s@.subrange(0, hi as int);
        if !ends {
            assert(sub.subrange(sub.len() - 5, sub.len() as int) != unit_suffix()) by {
                let t = sub.subrange(sub.len() - 5, sub.len() as int);
                assert(t[0] == s@[hi - 5]);
                assert(t[1] == s@[hi - 4]);
                assert(t[2] == s@[hi - 3]);
                assert(t[3] == s@[hi - 2]);
                assert(t[4] == s@[hi - 1]);
            }
            break;
        }
        assert(sub.subrange(sub.len() - 5, sub.len() as int) =~= unit_suffix());
        assert(sub.subrange(0, sub.len() - 5) == s@.subrange(0, hi as int - 5));
        hi = hi - 5;
    }
    s.substring_char(0, hi).to_owned()
}

impl HumanCapacity {
    /// The capacity that `input` writes, where it fits in 64 bits.
    pub fn from_str(input: &str) -> (r: Result<HumanCapacity, String>)
        ensures
            r is Ok <==> (capacity_of_text(input@) is Some && capacity_of_text(input@)->0 <= u64::MAX),
            r is Ok ==> r->Ok_0.0 == capacity_of_text(input@)->0,
    {
        let stripped = strip_unit_str(input);
        let t = trim_str(stripped.as_str());
        let parts = split_char(t.as_str(), '.');
        proof {
            crate::text::lemma_split_nonempty(t@, '.');
        }
        let whole = match parse_decimal(parts[0].as_str(), u64::MAX) {
            Some(w) => w,
            None => {
                return Err(String::from_str("invalid whole part"));
            },
        };
        if whole > u64::MAX / ONE_CKB {
            assert(whole * ONE_CKB > u64::MAX) by (nonlinear_arith)
                requires whole > u64::MAX / ONE_CKB, ONE_CKB == 100_000_000u64;
            return Err(String::from_str("capacity too large"));
        }
        assert(whole * ONE_CKB <= u64::MAX) by (nonlinear_arith)
            requires whole <= u64::MAX / ONE_CKB, ONE_CKB == 100_000_000u64;
        let capacity = whole * ONE_CKB;
        if parts.len() < 2 {
            return Ok(HumanCapacity(capacity));
        }
        let f = trim_str(parts[1].as_str());
        let flen = f.unicode_len();
        if flen > 8 {
            return Err(String::from_str("decimal part too long"));
        }
        let v = match parse_decimal(f.as_str(), 99_999_999) {
            Some(v) => v,
            None => {
                proof {
                    lemma_decimal_small(f@);
                }
                return Err(String::from_str("invalid decimal part"));
            },
        };
        let mut scale: u64 = 1;
        let mut k: usize = flen;
        while k < 8
            invariant
                flen <= k <= 8,
                scale == pow10((k - flen) as nat),
            decreases 8 - k,
        {
            proof {
                lemma_pow10_bound((k + 1 - flen) as nat);
                assert(pow10((k + 1 - flen) as nat) == 10 * pow10((k - flen) as nat));
            }
            scale = scale * 10;
            k = k + 1;
        }
        proof {
            lemma_pow10_bound((8 - flen) as nat);
            lemma_decimal_small(f@);
        }
        assert(v * scale <= 100_000_000) by (nonlinear_arith)
            requires v * pow10((8 - flen) as nat) < pow10(8), scale == pow10((8 - flen) as nat), pow10(8) == 100_000_000;
        if v * scale > u64::MAX - capacity {
            return Err(String::from_str("capacity too large"));
        }
        Ok(HumanCapacity(capacity + v * scale))
    }
}

proof fn lemma_pow10_bound(k: nat)
    requires
        k <= 8,
    ensures
        pow10(k) <= 100_000_000,
        pow10(8) == 100_000_000,
{
    assert(pow10(0) == 1);
    assert(pow10(1) == 10);
    assert(pow10(2) == 100);
    assert(pow10(3) == 1000);
    assert(pow10(4) == 10000);
    assert(pow10(5) == 100000);
    assert(pow10(6) == 1000000);
    assert(pow10(7) == 10000000);
    assert(pow10(8) == 100000000);
}

/// A value of at most eight digits, scaled up to eight digits, stays below
/// one unit.
proof fn lemma_decimal_small(f: Seq<char>)
    requires
        f.len() <= 8,
    ensures
        decimal_value(f) is Some ==> decimal_value(f)->0 <= 99_999_999,
        decimal_value(f) is Some ==> decimal_value(f)->0 * pow10((8 - f.len()) as nat) < pow10(8),
{
    if decimal_value(f) is Some {
        lemma_decimal_value_bound(f);
        lemma_pow10_mul(f.len(), (8 - f.len()) as nat);
        lemma_pow10_bound(f.len());
        let v = decimal_value(f)->0;
        let a = pow10(f.len());
        let b = pow10((8 - f.len()) as nat);
        assert(v * b < a * b) by (nonlinear_arith)
            requires v < a, b >= 1;
    }
}

proof fn lemma_pow10_mul(a: nat, b: nat)
    ensures
        pow10(a) * pow10(b) == pow10(a + b),
        pow10(b) >= 1,
    decreases a,
{
    if a > 0 {
        lemma_pow10_mul((a - 1) as nat, b);
        assert(pow10(a) == 10 * pow10((a - 1) as nat));
        assert(pow10(a + b) == 10 * pow10((a + b - 1) as nat));
        assert((a - 1) as nat + b == (a + b - 1) as nat);
        lemma_pow10_pos(b);
        assert(pow10(a) * pow10(b) == 10 * (pow10((a - 1) as nat) * pow10(b))) by (nonlinear_arith)
            requires pow10(a) == 10 * pow10((a - 1) as nat);
        assert(pow10(a + b) == 10 * pow10((a + b - 1) as nat));
    } else {
        lemma_pow10_pos(b);
        assert(pow10(0) == 1);
        assert(a + b == b);
    }
}

proof fn lemma_pow10_pos(b: nat)
    ensures
        pow10(b) >= 1,
    decreases b,
{
    if b > 0 {
        lemma_pow10_pos((b - 1) as nat);
    }
}

proof fn lemma_decimal_value_bound(f: Seq<char>)
    requires
        decimal_value(f) is Some,
    ensures
        decimal_value(f)->0 < pow10(f.len()),
    decreases f.len(),
{
    assert(pow10(0) == 1);
    assert(pow10(1) == 10);
    if f.len() > 1 {
        assert(pow10(f.len()) == 10 * pow10((f.len() - 1) as nat));
        lemma_decimal_value_bound(f.drop_last());
        let p = decimal_value(f.drop_last())->0;
        let d = (f.last() as nat - '0' as nat) as nat;
        assert(p * 10 + d < 10 * pow10((f.len() - 1) as nat)) by (nonlinear_arith)
            requires p < pow10((f.len() - 1) as nat), d < 10;
    }
}

impl std::str::FromStr for HumanCapacity {
    type Err = String;

    fn from_str(s: &str) -> Result<HumanCapacity, String> {
        HumanCapacity::from_str(s)
    }
}

} // verus!
