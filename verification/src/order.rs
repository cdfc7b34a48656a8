use vstd::prelude::*;
use vstd::utf8::{encode_utf8, encode_utf8_decode_utf8};
use vstd::string::StringSliceAdditionalSpecFns;

verus! {

/// Outcome of a three-way comparison.
#[derive(Clone, Copy, Debug, PartialEq, Eq, Structural)]
pub enum Cmp {
    Lt,
    Eq,
    Gt,
}

/// Lexicographic order on byte sequences: the order persisted records are
/// listed in.
pub open spec fn bytes_lt(a: Seq<u8>, b: Seq<u8>) -> bool
    decreases a.len(),
{
    if b.len() == 0 {
        false
    } else if a.len() == 0 {
        true
    } else if a[0] < b[0] {
        true
    } else if a[0] > b[0] {
        false
    } else {
        bytes_lt(a.skip(1), b.skip(1))
    }
}

/// Order on strings: lexicographic on their UTF-8 encodings.
pub open spec fn str_lt(a: Seq<char>, b: Seq<char>) -> bool {
    bytes_lt(encode_utf8(a), encode_utf8(b))
}

/// Equal prefixes do not affect the comparison of the remainders.
proof fn lemma_bytes_lt_skip(a: Seq<u8>, b: Seq<u8>, i: int)
    requires
        0 <= i <= a.len(),
        i <= b.len(),
        forall|j: int| 0 <= j < i ==> a[j] == b[j],
    ensures
        bytes_lt(a, b) == bytes_lt(a.skip(i), b.skip(i)),
    decreases i,
{
    if i > 0 {
        assert(a[0] == b[0]);
        assert(bytes_lt(a, b) == bytes_lt(a.skip(1), b.skip(1)));
        assert(forall|j: int| 0 <= j < i - 1 ==> a.skip(1)[j] == b.skip(1)[j]);
        lemma_bytes_lt_skip(a.skip(1), b.skip(1), i - 1);
        assert(a.skip(1).skip(i - 1) =~= a.skip(i));
        assert(b.skip(1).skip(i - 1) =~= b.skip(i));
    } else {
        assert(a.skip(0) =~= a);
        assert(b.skip(0) =~= b);
    }
}

/// Of two byte sequences, exactly one of `a < b`, `a == b`, `b < a` holds.
pub proof fn lemma_bytes_trichotomy(a: Seq<u8>, b: Seq<u8>)
    ensures
        !(bytes_lt(a, b) && bytes_lt(b, a)),
        bytes_lt(a, b) ==> a != b,
        !bytes_lt(a, b) && !bytes_lt(b, a) ==> a == b,
    decreases a.len(),
{
    if b.len() == 0 {
        if a.len() == 0 {
            assert(a =~= b);
        } else {
            assert(a.len() != b.len());
        }
    } else if a.len() == 0 {
        assert(a.len() != b.len());
    } else if a[0] < b[0] || a[0] > b[0] {
        assert(bytes_lt(a, b) ==> a != b);
    } else {
        lemma_bytes_trichotomy(a.skip(1), b.skip(1));
        if !bytes_lt(a, b) && !bytes_lt(b, a) {
            assert(a.skip(1) == b.skip(1));
            assert forall|j: int| 0 <= j < a.len() implies a[j] == b[j] by {
                if j > 0 {
                    assert(a[j] == a.skip(1)[j - 1]);
                    assert(b[j] == b.skip(1)[j - 1]);
                }
            }
            assert(a =~= b);
        }
        if bytes_lt(a, b) && a == b {
            assert(a.skip(1) == b.skip(1));
            assert(bytes_lt(a.skip(1), b.skip(1)));
            assert(false);
        }
    }
}

/// Lexicographic order on bytes is transitive.
pub proof fn lemma_bytes_lt_trans(a: Seq<u8>, b: Seq<u8>, c: Seq<u8>)
    requires
        bytes_lt(a, b),
        bytes_lt(b, c),
    ensures
        bytes_lt(a, c),
    decreases a.len(),
{
    assert(c.len() > 0);
    if a.len() > 0 {
        assert(b.len() > 0);
        if a[0] == b[0] && b[0] == c[0] {
            lemma_bytes_lt_trans(a.skip(1), b.skip(1), c.skip(1));
        } else {
            assert(a[0] <= b[0] && b[0] <= c[0] && a[0] < c[0]);
        }
    }
}

/// String order is transitive.
pub proof fn lemma_str_lt_trans(a: Seq<char>, b: Seq<char>, c: Seq<char>)
    requires
        str_lt(a, b),
        str_lt(b, c),
    ensures
        str_lt(a, c),
{
    lemma_bytes_lt_trans(encode_utf8(a), encode_utf8(b), encode_utf8(c));
}

/// Of two strings, exactly one of `a < b`, `a == b`, `b < a` holds.
pub proof fn lemma_str_trichotomy(a: Seq<char>, b: Seq<char>)
    ensures
        !(str_lt(a, b) && str_lt(b, a)),
        str_lt(a, b) ==> a != b,
        !str_lt(a, b) && !str_lt(b, a) ==> a == b,
{
    lemma_bytes_trichotomy(encode_utf8(a), encode_utf8(b));
    encode_utf8_decode_utf8(a);
    encode_utf8_decode_utf8(b);
    if !str_lt(a, b) && !str_lt(b, a) {
        assert(encode_utf8(a) == encode_utf8(b));
    }
}

/// Three-way comparison of byte slices in lexicographic order.
pub fn compare_bytes(a: &[u8], b: &[u8]) -> (r: Cmp)
    ensures
        (r == Cmp::Lt) == bytes_lt(a@, b@),
        (r == Cmp::Eq) == (a@ == b@),
        (r == Cmp::Gt) == bytes_lt(b@, a@),
{
    let la = a.len();
    let lb = b.len();
    let min = if la < lb {
        la
    } else {
        lb
    };
    let mut i: usize = 0;
    while i < min
        invariant
            i <= min,
            la == a@.len(),
            lb == b@.len(),
            min == if la < lb {
                la
            } else {
                lb
            },
            forall|j: int| 0 <= j < i ==> a@[j] == b@[j],
        decreases min - i,
    {
        let x = a[i];
        let y = b[i];
        if x < y {
            proof {
                lemma_bytes_lt_skip(a@, b@, i as int);
                lemma_bytes_lt_skip(b@, a@, i as int);
                assert(a@.skip(i as int)[0] == x && b@.skip(i as int)[0] == y);
                lemma_bytes_trichotomy(a@, b@);
            }
            return Cmp::Lt;
        } else if y < x {
            proof {
                lemma_bytes_lt_skip(a@, b@, i as int);
                lemma_bytes_lt_skip(b@, a@, i as int);
                assert(a@.skip(i as int)[0] == x && b@.skip(i as int)[0] == y);
                lemma_bytes_trichotomy(a@, b@);
            }
            return Cmp::Gt;
        }
        i += 1;
    }
    proof {
        lemma_bytes_lt_skip(a@, b@, min as int);
        lemma_bytes_lt_skip(b@, a@, min as int);
    }
    if la == lb {
        proof {
            assert(a@ =~= b@);
            lemma_bytes_trichotomy(a@, b@);
        }
        Cmp::Eq
    } else if la < lb {
        proof {
            assert(a@.skip(min as int).len() == 0 && b@.skip(min as int).len() > 0);
            lemma_bytes_trichotomy(a@, b@);
        }
        Cmp::Lt
    } else {
        proof {
            assert(b@.skip(min as int).len() == 0 && a@.skip(min as int).len() > 0);
            lemma_bytes_trichotomy(a@, b@);
        }
        Cmp::Gt
    }
}

/// Three-way comparison of strings in the order of their UTF-8 encodings.
pub fn compare_strings(a: &String, b: &String) -> (r: Cmp)
    ensures
        (r == Cmp::Lt) == str_lt(a@, b@),
        (r == Cmp::Eq) == (a@ == b@),
        (r == Cmp::Gt) == str_lt(b@, a@),
{
    let r = compare_bytes(a.as_str().as_bytes(), b.as_str().as_bytes());
    proof {
        encode_utf8_decode_utf8(a@);
        encode_utf8_decode_utf8(b@);
    }
    r
}

} // verus!
