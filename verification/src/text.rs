//! Text helpers: decimal rendering of integers, and the byte-wise equality
//! and order of codec names (the order `str` itself has).

use vstd::prelude::*;
use vstd::string::*;
use vstd::utf8::*;

verus! {

/// The ASCII digit for `d` (`d < 10`).
pub open spec fn digit_char(d: nat) -> char {
    if d == 0 {
        '0'
    } else if d == 1 {
        '1'
    } else if d == 2 {
        '2'
    } else if d == 3 {
        '3'
    } else if d == 4 {
        '4'
    } else if d == 5 {
        '5'
    } else if d == 6 {
        '6'
    } else if d == 7 {
        '7'
    } else if d == 8 {
        '8'
    } else {
        '9'
    }
}

/// Decimal notation of `n`, without sign or leading zeros (`0` is "0").
pub open spec fn decimal(n: nat) -> Seq<char>
    decreases n,
{
    if n < 10 {
        seq![digit_char(n)]
    } else {
        decimal(n / 10).push(digit_char(n % 10))
    }
}

fn digit_str(d: u64) -> (s: &'static str)
    requires
        d < 10,
    ensures
        s@ == seq![digit_char(d as nat)],
{
    if d == 0 {
        proof { reveal_strlit("0"); }
        "0"
    } else if d == 1 {
        proof { reveal_strlit("1"); }
        "1"
    } else if d == 2 {
        proof { reveal_strlit("2"); }
        "2"
    } else if d == 3 {
        proof { reveal_strlit("3"); }
        "3"
    } else if d == 4 {
        proof { reveal_strlit("4"); }
        "4"
    } else if d == 5 {
        proof { reveal_strlit("5"); }
        "5"
    } else if d == 6 {
        proof { reveal_strlit("6"); }
        "6"
    } else if d == 7 {
        proof { reveal_strlit("7"); }
        "7"
    } else if d == 8 {
        proof { reveal_strlit("8"); }
        "8"
    } else {
        proof { reveal_strlit("9"); }
        "9"
    }
}

/// Appends the decimal notation of `n` to `s`.
pub fn push_decimal(s: &mut String, n: u64)
    ensures
        final(s)@ == old(s)@ + decimal(n as nat),
    decreases n,
{
    if n >= 10 {
        push_decimal(s, n / 10);
    }
    s.append(digit_str(n % 10));
    proof {
        if n >= 10 {
            assert(decimal(n as nat) == decimal((n / 10) as nat).push(digit_char((n % 10) as nat)));
        }
    }
}

/// Byte-wise comparison of `a` and `b` from position `i` on: the first
/// differing byte decides, and a proper prefix comes first.
pub open spec fn bytes_lt_from(a: Seq<u8>, b: Seq<u8>, i: int) -> bool
    decreases a.len() - i,
{
    if i < 0 || i >= a.len() {
        0 <= i < b.len()
    } else if i >= b.len() {
        false
    } else if a[i] != b[i] {
        a[i] < b[i]
    } else {
        bytes_lt_from(a, b, i + 1)
    }
}

/// Lexicographic order of byte strings: the order of `str` values.
pub open spec fn bytes_lt(a: Seq<u8>, b: Seq<u8>) -> bool {
    bytes_lt_from(a, b, 0)
}

/// Strict order of codec names: the order of their UTF-8 bytes.
pub open spec fn name_lt(a: Seq<char>, b: Seq<char>) -> bool {
    bytes_lt(encode_utf8(a), encode_utf8(b))
}

proof fn lemma_bytes_lt_from_irreflexive(a: Seq<u8>, i: int)
    requires
        0 <= i,
    ensures
        !bytes_lt_from(a, a, i),
    decreases a.len() - i,
{
    if i < a.len() {
        lemma_bytes_lt_from_irreflexive(a, i + 1);
    }
}

proof fn lemma_bytes_lt_from_transitive(a: Seq<u8>, b: Seq<u8>, c: Seq<u8>, i: int)
    requires
        0 <= i,
        bytes_lt_from(a, b, i),
        bytes_lt_from(b, c, i),
    ensures
        bytes_lt_from(a, c, i),
    decreases a.len() - i,
{
    if i < a.len() && i < b.len() && i < c.len() && a[i] == b[i] && b[i] == c[i] {
        lemma_bytes_lt_from_transitive(a, b, c, i + 1);
    }
}

proof fn lemma_bytes_lt_from_total(a: Seq<u8>, b: Seq<u8>, i: int)
    requires
        0 <= i <= a.len(),
        i <= b.len(),
    ensures
        bytes_lt_from(a, b, i) || bytes_lt_from(b, a, i) || (a.len() == b.len() && forall|j: int|
            i <= j < a.len() ==> a[j] == b[j]),
    decreases a.len() - i,
{
    if i < a.len() && i < b.len() && a[i] == b[i] {
        lemma_bytes_lt_from_total(a, b, i + 1);
    }
}

proof fn lemma_bytes_lt_from_lexicographic(a: Seq<u8>, b: Seq<u8>, i: int)
    requires
        0 <= i <= a.len(),
        i <= b.len(),
        a.take(i) =~= b.take(i),
    ensures
        bytes_lt_from(a, b, i) <==> ((exists|k: int|
            #![trigger a.take(k)]
            0 <= k < a.len() && k < b.len() && a.take(k) == b.take(k) && a[k] < b[k]) || (a.len()
            < b.len() && b.take(a.len() as int) == a)),
    decreases a.len() - i,
{
    if i == a.len() || i == b.len() {
        assert forall|k: int|
            0 <= k < a.len() && k < b.len() && #[trigger] a.take(k) == b.take(k) implies !(a[k]
            < b[k]) by {
            assert(a.take(i)[k] == b.take(i)[k]);
        }
        if i == a.len() {
            assert(a.take(i) =~= a);
        }
        if a.len() < b.len() && b.take(a.len() as int) == a {
            assert(i == a.len());
        }
    } else if a[i] != b[i] {
        if a[i] < b[i] {
            assert(a.take(i) == b.take(i));
        } else {
            assert forall|k: int|
                0 <= k < a.len() && k < b.len() && #[trigger] a.take(k) == b.take(k) implies !(a[k]
                < b[k]) by {
                if k < i {
                    assert(a.take(i)[k] == b.take(i)[k]);
                } else if k > i {
                    assert(a.take(k)[i] == b.take(k)[i]);
                }
            }
            if a.len() < b.len() && b.take(a.len() as int) == a {
                assert(b.take(a.len() as int)[i] == b[i]);
            }
        }
    } else {
        assert(a.take(i + 1) =~= b.take(i + 1)) by {
            assert forall|k: int| 0 <= k < i + 1 implies #[trigger] a.take(i + 1)[k] == b.take(i + 1)[k] by {
                if k < i {
                    assert(a.take(i)[k] == b.take(i)[k]);
                }
            }
        }
        lemma_bytes_lt_from_lexicographic(a, b, i + 1);
    }
}

/// Byte strings are ordered as `str` values are, lexicographically: `a`
/// comes before `b` exactly when, at the first position where they differ,
/// the byte of `a` is the smaller one, or when `a` is a proper prefix of `b`.
pub proof fn lemma_bytes_lt_lexicographic(a: Seq<u8>, b: Seq<u8>)
    ensures
        bytes_lt(a, b) <==> ((exists|k: int|
            #![trigger a.take(k)]
            0 <= k < a.len() && k < b.len() && a.take(k) == b.take(k) && a[k] < b[k]) || (a.len()
            < b.len() && b.take(a.len() as int) == a)),
{
    assert(a.take(0) =~= b.take(0));
    lemma_bytes_lt_from_lexicographic(a, b, 0);
}

/// Codec names are ordered by their UTF-8 bytes, lexicographically, as
/// `str` values are.
pub proof fn lemma_name_lt_lexicographic(a: Seq<char>, b: Seq<char>)
    ensures
        ({
            let x = encode_utf8(a);
            let y = encode_utf8(b);
            name_lt(a, b) <==> ((exists|k: int|
                #![trigger x.take(k)]
                0 <= k < x.len() && k < y.len() && x.take(k) == y.take(k) && x[k] < y[k]) || (x.len()
                < y.len() && y.take(x.len() as int) == x))
        }),
{
    lemma_bytes_lt_lexicographic(encode_utf8(a), encode_utf8(b));
}

/// `name_lt` is irreflexive.
pub proof fn lemma_name_lt_irreflexive(a: Seq<char>)
    ensures
        !name_lt(a, a),
{
    lemma_bytes_lt_from_irreflexive(encode_utf8(a), 0);
}

/// `name_lt` is transitive.
pub proof fn lemma_name_lt_transitive(a: Seq<char>, b: Seq<char>, c: Seq<char>)
    requires
        name_lt(a, b),
        name_lt(b, c),
    ensures
        name_lt(a, c),
{
    lemma_bytes_lt_from_transitive(encode_utf8(a), encode_utf8(b), encode_utf8(c), 0);
}

/// Two distinct names are ordered one way or the other.
pub proof fn lemma_name_lt_total(a: Seq<char>, b: Seq<char>)
    requires
        a != b,
    ensures
        name_lt(a, b) || name_lt(b, a),
{
    let x = encode_utf8(a);
    let y = encode_utf8(b);
    lemma_bytes_lt_from_total(x, y, 0);
    if !name_lt(a, b) && !name_lt(b, a) {
        assert(x =~= y);
        encode_utf8_decode_utf8(a);
        encode_utf8_decode_utf8(b);
    }
}

/// Whether the names `a` and `b` are equal.
pub fn names_equal(a: &str, b: &str) -> (r: bool)
    ensures
        r == (a@ == b@),
{
    let x = a.as_bytes();
    let y = b.as_bytes();
    proof {
        encode_utf8_decode_utf8(a@);
        encode_utf8_decode_utf8(b@);
    }
    if x.len() != y.len() {
        return false;
    }
    let mut i: usize = 0;
    while i < x.len()
        invariant
            x@ == encode_utf8(a@),
            y@ == encode_utf8(b@),
            x.len() == y.len(),
            i <= x.len(),
            forall|j: int| 0 <= j < i ==> x@[j] == y@[j],
        decreases x.len() - i,
    {
        if x[i] != y[i] {
            return false;
        }
        i = i + 1;
    }
    assert(x@ =~= y@);
    true
}

/// Whether name `a` comes strictly before name `b` in the order of `str`.
pub fn name_precedes(a: &str, b: &str) -> (r: bool)
    ensures
        r == name_lt(a@, b@),
{
    let x = a.as_bytes();
    let y = b.as_bytes();
    let mut i: usize = 0;
    while i < x.len() && i < y.len()
        invariant
            x@ == encode_utf8(a@),
            y@ == encode_utf8(b@),
            i <= x.len(),
            i <= y.len(),
            bytes_lt_from(x@, y@, i as int) == name_lt(a@, b@),
        decreases x.len() - i,
    {
        if x[i] != y[i] {
            return x[i] < y[i];
        }
        i = i + 1;
    }
    i < y.len()
}

} // verus!
