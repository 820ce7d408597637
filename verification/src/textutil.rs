use vstd::prelude::*;
use vstd::string::*;

verus! {

/// `p` occurs in `s` starting at position `i`.
pub open spec fn occurs_at(s: Seq<char>, p: Seq<char>, i: int) -> bool {
    0 <= i && i + p.len() <= s.len() && s.subrange(i, i + p.len()) == p
}

/// `p` occurs somewhere in `s`.
pub open spec fn contains_seq(s: Seq<char>, p: Seq<char>) -> bool {
    exists|i: int| occurs_at(s, p, i)
}

/// `s` begins with `p`.
pub open spec fn starts_with_seq(s: Seq<char>, p: Seq<char>) -> bool {
    p.len() <= s.len() && s.subrange(0, p.len() as int) == p
}

fn match_at(s: &str, p: &str, i: usize) -> (r: bool)
    requires
        i + p@.len() <= s@.len(),
    ensures
        r == occurs_at(s@, p@, i as int),
{
    let plen = p.unicode_len();
    let slen = s.unicode_len();
    let mut j: usize = 0;
    while j < plen
        invariant
            j <= plen,
            plen == p@.len(),
            slen == s@.len(),
            i + plen <= slen,
            forall|k: int| 0 <= k < j ==> s@[i + k] == p@[k],
        decreases plen - j,
    {
        if s.get_char(i + j) != p.get_char(j) {
            assert(s@[i + j] != p@[j as int]);
            assert(!occurs_at(s@, p@, i as int)) by {
                if s@.subrange(i as int, i + p@.len()) == p@ {
                    assert(s@.subrange(i as int, i + p@.len())[j as int] == p@[j as int]);
                }
            }
            return false;
        }
        j += 1;
    }
    assert(s@.subrange(i as int, i + p@.len()) =~= p@);
    true
}

/// Whether `p` occurs as a contiguous run of characters inside `s`.
pub fn str_contains(s: &str, p: &str) -> (r: bool)
    ensures
        r == contains_seq(s@, p@),
{
    let slen = s.unicode_len();
    let plen = p.unicode_len();
    if plen == 0 {
        assert(s@.subrange(0, 0) =~= p@);
        assert(occurs_at(s@, p@, 0));
        return true;
    }
    if plen > slen {
        assert(!contains_seq(s@, p@)) by {
            if exists|i: int| occurs_at(s@, p@, i) {
                let i = choose|i: int| occurs_at(s@, p@, i);
            }
        }
        return false;
    }
    let mut i: usize = 0;
    while i < slen - plen + 1
        invariant
            1 <= plen <= slen,
            slen == s@.len(),
            plen == p@.len(),
            i <= slen - plen + 1,
            forall|k: int| 0 <= k < i ==> !occurs_at(s@, p@, k),
        decreases slen - plen + 1 - i,
    {
        if match_at(s, p, i) {
            return true;
        }
        i += 1;
    }
    assert(!contains_seq(s@, p@)) by {
        if exists|k: int| occurs_at(s@, p@, k) {
            let k = choose|k: int| occurs_at(s@, p@, k);
            assert(k < i);
        }
    }
    false
}

/// Whether `s` begins with `p`.
pub fn str_starts_with(s: &str, p: &str) -> (r: bool)
    ensures
        r == starts_with_seq(s@, p@),
{
    let slen = s.unicode_len();
    let plen = p.unicode_len();
    if plen > slen {
        return false;
    }
    let r = match_at(s, p, 0);
    assert(occurs_at(s@, p@, 0) == starts_with_seq(s@, p@));
    r
}

/// Whether `a` and `b` hold the same characters.
pub fn str_eq(a: &str, b: &str) -> (r: bool)
    ensures
        r == (a@ == b@),
{
    let alen = a.unicode_len();
    let blen = b.unicode_len();
    if alen != blen {
        return false;
    }
    let r = match_at(a, b, 0);
    proof {
        assert(a@.subrange(0, a@.len() as int) =~= a@);
        if a@ == b@ {
            assert(occurs_at(a@, b@, 0));
        }
    }
    r
}

/// Filtering twice is filtering by the conjunction of the two predicates.
pub proof fn lemma_filter_filter<A>(
    s: Seq<A>,
    f: spec_fn(A) -> bool,
    g: spec_fn(A) -> bool,
    h: spec_fn(A) -> bool,
)
    requires
        forall|x: A| #[trigger] h(x) == (f(x) && g(x)),
    ensures
        s.filter(f).filter(g) == s.filter(h),
    decreases s.len(),
{
    reveal(Seq::filter);
    if s.len() == 0 {
        assert(s.filter(f).filter(g) =~= s.filter(h));
    } else {
        let t = s.drop_last();
        let e = s.last();
        lemma_filter_filter(t, f, g, h);
        if f(e) {
            assert(s.filter(f) == t.filter(f).push(e));
            assert(t.filter(f).push(e).drop_last() =~= t.filter(f));
            assert(t.filter(f).push(e).last() == e);
        }
        assert(s.filter(f).filter(g) =~= s.filter(h));
    }
}

/// Everything a filter keeps was in the sequence.
pub proof fn lemma_filter_members<A>(s: Seq<A>, pred: spec_fn(A) -> bool)
    ensures
        forall|x: A| #[trigger] s.filter(pred).contains(x) ==> s.contains(x),
    decreases s.len(),
{
    reveal(Seq::filter);
    if s.len() == 0 {
    } else {
        let t = s.drop_last();
        let e = s.last();
        lemma_filter_members(t, pred);
        lemma_contains_push(t.filter(pred), e);
        lemma_contains_push(t, e);
        assert(t.push(e) =~= s);
        assert forall|x: A| #[trigger] s.filter(pred).contains(x) implies s.contains(x) by {
            if pred(e) {
                assert(s.filter(pred) == t.filter(pred).push(e));
                assert(t.filter(pred).contains(x) || x == e);
                if t.filter(pred).contains(x) {
                    assert(t.contains(x));
                }
            } else {
                assert(s.filter(pred) == t.filter(pred));
                assert(t.contains(x));
            }
        }
    }
}

/// A filter keeps keys pairwise distinct when they were distinct before.
pub proof fn lemma_filter_distinct_keys<A, K>(
    s: Seq<A>,
    pred: spec_fn(A) -> bool,
    key: spec_fn(A) -> K,
)
    requires
        forall|i: int, j: int| 0 <= i < j < s.len() ==> key(s[i]) != key(s[j]),
    ensures
        forall|i: int, j: int|
            0 <= i < j < s.filter(pred).len() ==> key(s.filter(pred)[i]) != key(s.filter(pred)[j]),
    decreases s.len(),
{
    reveal(Seq::filter);
    if s.len() == 0 {
    } else {
        let t = s.drop_last();
        let e = s.last();
        assert(forall|i: int, j: int| 0 <= i < j < t.len() ==> key(t[i]) != key(t[j])) by {
            assert(forall|i: int| 0 <= i < t.len() ==> t[i] == s[i]);
        }
        lemma_filter_distinct_keys(t, pred, key);
        lemma_filter_members(t, pred);
        if pred(e) {
            assert(s.filter(pred) == t.filter(pred).push(e));
            let f = t.filter(pred);
            assert(forall|i: int| 0 <= i < f.len() ==> f.push(e)[i] == f[i]);
            assert(f.push(e)[f.len() as int] == e);
            assert forall|i: int, j: int|
                0 <= i < j < f.push(e).len() implies key(f.push(e)[i]) != key(f.push(e)[j]) by {
                if j == f.len() {
                    assert(f.contains(f[i]));
                    assert(t.contains(f[i]));
                    let k = choose|k: int| 0 <= k < t.len() && t[k] == f[i];
                    assert(t[k] == s[k]);
                    assert(key(s[k]) != key(s[s.len() - 1]));
                }
            }
        }
    }
}

/// Membership in a sequence extended by one element.
pub proof fn lemma_contains_push<A>(s: Seq<A>, e: A)
    ensures
        forall|x: A| s.push(e).contains(x) <==> (s.contains(x) || x == e),
{
    assert(forall|k: int| 0 <= k < s.len() ==> s.push(e)[k] == s[k]);
    assert(s.push(e)[s.len() as int] == e);
    assert(forall|x: A| s.contains(x) ==> s.push(e).contains(x)) by {
        assert forall|x: A| s.contains(x) implies s.push(e).contains(x) by {
            let k = choose|k: int| 0 <= k < s.len() && s[k] == x;
            assert(s.push(e)[k] == x);
        }
    }
    assert(forall|x: A| s.push(e).contains(x) ==> (s.contains(x) || x == e)) by {
        assert forall|x: A| s.push(e).contains(x) implies (s.contains(x) || x == e) by {
            let k = choose|k: int| 0 <= k < s.push(e).len() && s.push(e)[k] == x;
            if k < s.len() {
                assert(s[k] == x);
            }
        }
    }
}

/// The character for one decimal digit.
pub open spec fn digit_char(d: int) -> char {
    if d == 0 {
        '0'
    } else if d == 1 {
        '1'
    } else if d == 2 {
        '2'
    } else if d == 3 {
        '3'
    } else if d == 4 {
        '4'
    } else if d == 5 {
        '5'
    } else if d == 6 {
        '6'
    } else if d == 7 {
        '7'
    } else if d == 8 {
        '8'
    } else {
        '9'
    }
}

/// The decimal rendering of a non-negative integer, most significant digit first.
pub open spec fn dec_seq(n: nat) -> Seq<char>
    decreases n,
{
    if n < 10 {
        seq![digit_char(n as int)]
    } else {
        dec_seq(n / 10) + seq![digit_char((n % 10) as int)]
    }
}

fn digit_str(d: u64) -> (r: &'static str)
    requires
        d < 10,
    ensures
        r@ == seq![digit_char(d as int)],
{
    let s: &'static str = if d == 0 {
        "0"
    } else if d == 1 {
        "1"
    } else if d == 2 {
        "2"
    } else if d == 3 {
        "3"
    } else if d == 4 {
        "4"
    } else if d == 5 {
        "5"
    } else if d == 6 {
        "6"
    } else if d == 7 {
        "7"
    } else if d == 8 {
        "8"
    } else {
        "9"
    };
    proof {
        reveal_strlit("0");
        reveal_strlit("1");
        reveal_strlit("2");
        reveal_strlit("3");
        reveal_strlit("4");
        reveal_strlit("5");
        reveal_strlit("6");
        reveal_strlit("7");
        reveal_strlit("8");
        reveal_strlit("9");
        assert(s@ =~= seq![digit_char(d as int)]);
    }
    s
}

/// Renders `n` in decimal.
pub fn u64_to_string(n: u64) -> (r: String)
    ensures
        r@ == dec_seq(n as nat),
    decreases n,
{
    if n < 10 {
        let r = digit_str(n).to_owned();
        assert(r@ =~= dec_seq(n as nat));
        r
    } else {
        proof {
            assert(n / 10 < n) by (nonlinear_arith)
                requires
                    n >= 10,
            ;
        }
        let mut r = u64_to_string(n / 10);
        r.append(digit_str(n % 10));
        assert(r@ =~= dec_seq(n as nat));
        r
    }
}

/// The character for one lowercase hexadecimal digit.
pub open spec fn hex_digit_char(d: int) -> char {
    if d < 10 {
        digit_char(d)
    } else if d == 10 {
        'a'
    } else if d == 11 {
        'b'
    } else if d == 12 {
        'c'
    } else if d == 13 {
        'd'
    } else if d == 14 {
        'e'
    } else {
        'f'
    }
}

/// The lowercase hexadecimal rendering of a non-negative integer,
/// most significant digit first, without leading zeros.
pub open spec fn hex_seq(n: nat) -> Seq<char>
    decreases n,
{
    if n < 16 {
        seq![hex_digit_char(n as int)]
    } else {
        hex_seq(n / 16) + seq![hex_digit_char((n % 16) as int)]
    }
}

fn hex_digit_str(d: u64) -> (r: &'static str)
    requires
        d < 16,
    ensures
        r@ == seq![hex_digit_char(d as int)],
{
    if d < 10 {
        let s = digit_str(d);
        assert(s@ =~= seq![hex_digit_char(d as int)]);
        s
    } else {
        let s: &'static str = if d == 10 {
            "a"
        } else if d == 11 {
            "b"
        } else if d == 12 {
            "c"
        } else if d == 13 {
            "d"
        } else if d == 14 {
            "e"
        } else {
            "f"
        };
        proof {
            reveal_strlit("a");
            reveal_strlit("b");
            reveal_strlit("c");
            reveal_strlit("d");
            reveal_strlit("e");
            reveal_strlit("f");
            assert(s@ =~= seq![hex_digit_char(d as int)]);
        }
        s
    }
}

/// Renders `n` in lowercase hexadecimal.
pub fn u64_to_hex_string(n: u64) -> (r: String)
    ensures
        r@ == hex_seq(n as nat),
    decreases n,
{
    if n < 16 {
        let r = hex_digit_str(n).to_owned();
        assert(r@ =~= hex_seq(n as nat));
        r
    } else {
        proof {
            assert(n / 16 < n) by (nonlinear_arith)
                requires
                    n >= 16,
            ;
        }
        let mut r = u64_to_hex_string(n / 16);
        r.append(hex_digit_str(n % 16));
        assert(r@ =~= hex_seq(n as nat));
        r
    }
}

} // verus!
