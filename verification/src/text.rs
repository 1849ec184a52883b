//! Small text helpers shared across the crate: string equality with a
//! specification, and decimal rendering of integers (used for replica
//! names and port numbers in URLs).

use vstd::prelude::*;
use vstd::string::StringExecFns;

verus! {

/// Compares two string slices by contents.
pub fn str_eq(a: &str, b: &str) -> (r: bool)
    ensures
        r == (a@ == b@),
{
    let sa = String::from_str(a);
    let sb = String::from_str(b);
    sa == sb
}

/// The contents of a list of strings.
pub open spec fn names_view(v: Seq<String>) -> Seq<Seq<char>> {
    v.map_values(|s: String| s@)
}

/// Whether a list of names holds some name twice.
pub open spec fn has_dup(s: Seq<Seq<char>>) -> bool {
    exists|i: int, j: int| 0 <= i < j < s.len() && s[i] == s[j]
}

/// Whether `n` occurs at two distinct positions of `s`.
pub open spec fn is_dup_name(s: Seq<Seq<char>>, n: Seq<char>) -> bool {
    exists|i: int, j: int| 0 <= i < j < s.len() && s[i] == n && s[j] == n
}

/// A name that occurs twice is a duplicate witness.
pub proof fn lemma_dup_name_implies_dup(s: Seq<Seq<char>>, n: Seq<char>)
    requires
        is_dup_name(s, n),
    ensures
        has_dup(s),
{
    let (i, j) = choose|i: int, j: int| 0 <= i < j < s.len() && s[i] == n && s[j] == n;
    assert(0 <= i < j < s.len() && s[i] == s[j]);
}

/// Whether a list of strings contains `x`.
pub fn contains_string(v: &Vec<String>, x: &str) -> (r: bool)
    ensures
        r == names_view(v@).contains(x@),
{
    let mut k: usize = 0;
    while k < v.len()
        invariant
            k <= v.len(),
            forall|i: int| 0 <= i < k ==> names_view(v@)[i] != x@,
        decreases v.len() - k,
    {
        if str_eq(v[k].as_str(), x) {
            proof {
                assert(names_view(v@)[k as int] == x@);
            }
            return true;
        }
        k += 1;
    }
    false
}

/// Finds a name that occurs twice, if any.
pub fn first_dup(v: &Vec<String>) -> (r: Option<String>)
    ensures
        (match r {
            Some(n) => is_dup_name(names_view(v@), n@),
            None => !has_dup(names_view(v@)),
        }),
{
    let ghost s = names_view(v@);
    let mut j: usize = 0;
    while j < v.len()
        invariant
            j <= v.len(),
            s == names_view(v@),
            forall|x: int, y: int| 0 <= x < y < j ==> s[x] != s[y],
        decreases v.len() - j,
    {
        let mut i: usize = 0;
        while i < j
            invariant
                i <= j < v.len(),
                s == names_view(v@),
                forall|x: int| 0 <= x < i ==> s[x] != s[j as int],
            decreases j - i,
        {
            if str_eq(v[i].as_str(), v[j].as_str()) {
                proof {
                    assert(s[i as int] == v@[j as int]@ && s[j as int] == v@[j as int]@);
                }
                return Some(v[j].clone());
            }
            i += 1;
        }
        j += 1;
    }
    None
}

/// The character for one decimal digit.
pub open spec fn dec_digit(d: nat) -> char
    recommends
        d < 10,
{
    if d == 0 {
        '0'
    } else if d == 1 {
        '1'
    } else if d == 2 {
        '2'
    } else if d == 3 {
        '3'
    } else if d == 4 {
        '4'
    } else if d == 5 {
        '5'
    } else if d == 6 {
        '6'
    } else if d == 7 {
        '7'
    } else if d == 8 {
        '8'
    } else {
        '9'
    }
}

/// The decimal representation of a natural number, without leading zeros
/// (a single `'0'` for zero).
pub open spec fn dec_rep(n: nat) -> Seq<char>
    decreases n,
{
    if n < 10 {
        seq![dec_digit(n)]
    } else {
        dec_rep(n / 10) + seq![dec_digit(n % 10)]
    }
}

fn dec_digit_str(d: u64) -> (r: &'static str)
    requires
        d < 10,
    ensures
        r@ == seq![dec_digit(d as nat)],
{
    let r: &'static str = if d == 0 {
        "0"
    } else if d == 1 {
        "1"
    } else if d == 2 {
        "2"
    } else if d == 3 {
        "3"
    } else if d == 4 {
        "4"
    } else if d == 5 {
        "5"
    } else if d == 6 {
        "6"
    } else if d == 7 {
        "7"
    } else if d == 8 {
        "8"
    } else {
        "9"
    };
    proof {
        reveal_strlit("0");
        reveal_strlit("1");
        reveal_strlit("2");
        reveal_strlit("3");
        reveal_strlit("4");
        reveal_strlit("5");
        reveal_strlit("6");
        reveal_strlit("7");
        reveal_strlit("8");
        reveal_strlit("9");
        assert(r@ =~= seq![dec_digit(d as nat)]);
    }
    r
}

/// Renders an unsigned integer in decimal.
pub fn u64_to_dec(n: u64) -> (r: String)
    ensures
        r@ == dec_rep(n as nat),
    decreases n,
{
    if n < 10 {
        String::from_str(dec_digit_str(n))
    } else {
        let mut s = u64_to_dec(n / 10);
        s.append(dec_digit_str(n % 10));
        s
    }
}

/// The decimal representation of an integer: a sign for negative values.
pub open spec fn int_dec_rep(n: int) -> Seq<char> {
    if n < 0 {
        seq!['-'] + dec_rep((-n) as nat)
    } else {
        dec_rep(n as nat)
    }
}

/// Renders a signed integer in decimal.
pub fn i32_to_dec(n: i32) -> (r: String)
    ensures
        r@ == int_dec_rep(n as int),
{
    let wide: i64 = n as i64;
    if wide < 0 {
        let mut s = String::from_str("-");
        let d = u64_to_dec((-wide) as u64);
        s.append(d.as_str());
        proof {
            reveal_strlit("-");
            assert(s@ =~= int_dec_rep(n as int));
        }
        s
    } else {
        u64_to_dec(wide as u64)
    }
}

/// A decimal representation is never empty, and spans at least two digits
/// from ten upward.
pub proof fn lemma_dec_rep_len(n: nat)
    ensures
        dec_rep(n).len() >= 1,
        n >= 10 ==> dec_rep(n).len() >= 2,
    decreases n,
{
    if n >= 10 {
        lemma_dec_rep_len(n / 10);
    }
}

/// No character of a decimal representation is a separator dash.
pub proof fn lemma_dec_rep_no_dash(n: nat)
    ensures
        forall|i: int| 0 <= i < dec_rep(n).len() ==> #[trigger] dec_rep(n)[i] != '-',
    decreases n,
{
    if n < 10 {
        assert(dec_rep(n) == seq![dec_digit(n)]);
        assert(dec_rep(n)[0] == dec_digit(n));
    } else {
        lemma_dec_rep_no_dash(n / 10);
        let p = dec_rep(n / 10);
        assert(dec_rep(n) == p + seq![dec_digit(n % 10)]);
        assert forall|i: int| 0 <= i < dec_rep(n).len() implies #[trigger] dec_rep(n)[i]
            != '-' by {
            if i < p.len() {
                assert(dec_rep(n)[i] == p[i]);
            } else {
                assert(dec_rep(n)[i] == dec_digit(n % 10));
            }
        }
    }
}

proof fn lemma_dec_digit_injective(a: nat, b: nat)
    requires
        a < 10,
        b < 10,
        dec_digit(a) == dec_digit(b),
    ensures
        a == b,
{
}

/// Distinct numbers have distinct decimal representations.
pub proof fn lemma_dec_rep_injective(a: nat, b: nat)
    requires
        dec_rep(a) == dec_rep(b),
    ensures
        a == b,
    decreases a + b,
{
    if a < 10 && b < 10 {
        assert(dec_rep(a) == seq![dec_digit(a)]);
        assert(dec_rep(b) == seq![dec_digit(b)]);
        assert(dec_rep(a)[0] == dec_digit(a));
        assert(dec_rep(b)[0] == dec_digit(b));
        lemma_dec_digit_injective(a, b);
    } else if a < 10 && b >= 10 {
        lemma_dec_rep_len(b);
        assert(dec_rep(a).len() == 1);
        assert(false);
    } else if a >= 10 && b < 10 {
        lemma_dec_rep_len(a);
        assert(dec_rep(b).len() == 1);
        assert(false);
    } else {
        let pa = dec_rep(a / 10);
        let pb = dec_rep(b / 10);
        assert(dec_rep(a) == pa + seq![dec_digit(a % 10)]);
        assert(dec_rep(b) == pb + seq![dec_digit(b % 10)]);
        assert(pa.len() == pb.len());
        assert(pa =~= pb) by {
            assert forall|i: int| 0 <= i < pa.len() implies pa[i] == pb[i] by {
                assert(dec_rep(a)[i] == pa[i]);
                assert(dec_rep(b)[i] == pb[i]);
            }
        }
        lemma_dec_rep_injective(a / 10, b / 10);
        assert(dec_rep(a)[pa.len() as int] == dec_digit(a % 10));
        assert(dec_rep(b)[pb.len() as int] == dec_digit(b % 10));
        lemma_dec_digit_injective(a % 10, b % 10);
        assert(a == 10 * (a / 10) + a % 10) by {
            vstd::arithmetic::div_mod::lemma_fundamental_div_mod(a as int, 10);
        }
        assert(b == 10 * (b / 10) + b % 10) by {
            vstd::arithmetic::div_mod::lemma_fundamental_div_mod(b as int, 10);
        }
    }
}

/// Two dash-terminated prefixes followed by dash-free tails split a string
/// in only one way: if the concatenations agree, so do the parts.
pub proof fn lemma_dash_split(a: Seq<char>, d1: Seq<char>, b: Seq<char>, d2: Seq<char>)
    requires
        a + seq!['-'] + d1 == b + seq!['-'] + d2,
        d1.len() > 0,
        d2.len() > 0,
        forall|i: int| 0 <= i < d1.len() ==> #[trigger] d1[i] != '-',
        forall|i: int| 0 <= i < d2.len() ==> #[trigger] d2[i] != '-',
    ensures
        a == b,
        d1 == d2,
{
    let s = a + seq!['-'] + d1;
    assert(s.len() == a.len() + 1 + d1.len());
    assert(s.len() == b.len() + 1 + d2.len());
    if a.len() < b.len() {
        assert(s[b.len() as int] == '-');
        assert(s[b.len() as int] == d1[b.len() - a.len() - 1]);
        assert(false);
    }
    if b.len() < a.len() {
        assert(s[a.len() as int] == '-');
        assert(s[a.len() as int] == d2[a.len() - b.len() - 1]);
        assert(false);
    }
    assert(a.len() == b.len());
    assert(a =~= b) by {
        assert forall|i: int| 0 <= i < a.len() implies a[i] == b[i] by {
            assert(s[i] == a[i]);
            assert((b + seq!['-'] + d2)[i] == b[i]);
        }
    }
    assert(d1 =~= d2) by {
        assert forall|i: int| 0 <= i < d1.len() implies d1[i] == d2[i] by {
            assert(s[a.len() + 1 + i] == d1[i]);
            assert((b + seq!['-'] + d2)[b.len() + 1 + i] == d2[i]);
        }
    }
}

} // verus!
