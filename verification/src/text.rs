//! The order in which names are listed: lexicographic on their UTF-8 bytes,
//! which is the order of their code points.

use vstd::prelude::*;
use vstd::string::*;
use vstd::utf8::*;

verus! {

/// `a` and `b` hold the same bytes at every position before `k`.
pub open spec fn agree_before(a: Seq<u8>, b: Seq<u8>, k: int) -> bool {
    forall|j: int| 0 <= j < k ==> a[j] == b[j]
}

/// `k` is the place at which `a` falls below `b`: they agree before it, and
/// there `a` either ends while `b` goes on, or holds the smaller byte.
pub open spec fn falls_below_at(a: Seq<u8>, b: Seq<u8>, k: int) -> bool {
    &&& 0 <= k <= a.len()
    &&& k < b.len()
    &&& agree_before(a, b, k)
    &&& (k < a.len() ==> a[k] < b[k])
}

/// `a` comes strictly before `b` in lexicographic order.
pub open spec fn lex_less(a: Seq<u8>, b: Seq<u8>) -> bool {
    exists|k: int| falls_below_at(a, b, k)
}

/// `a` comes strictly before `b` in the order of names.
pub open spec fn name_less(a: Seq<char>, b: Seq<char>) -> bool {
    lex_less(encode_utf8(a), encode_utf8(b))
}

/// `k` is the first place at which `a` and `b` part: they agree before it,
/// and there one of them ends or they hold different bytes.
pub open spec fn part_at(a: Seq<u8>, b: Seq<u8>, k: int) -> bool {
    &&& 0 <= k <= a.len()
    &&& k <= b.len()
    &&& agree_before(a, b, k)
    &&& (k < a.len() && k < b.len() ==> a[k] != b[k])
}

/// Two sequences part at one place only, so the place where they part
/// decides their order.
pub proof fn lemma_order_decided_where_parting(a: Seq<u8>, b: Seq<u8>, k: int)
    requires
        part_at(a, b, k),
    ensures
        lex_less(a, b) <==> falls_below_at(a, b, k),
        lex_less(b, a) <==> falls_below_at(b, a, k),
        a == b <==> (k == a.len() && k == b.len()),
{
    if lex_less(a, b) {
        let m = choose|m: int| falls_below_at(a, b, m);
        if m < k {
            assert(a[m] == b[m]);
        }
        if k < m {
            assert(a[k] == b[k]);
        }
    }
    if lex_less(b, a) {
        let m = choose|m: int| falls_below_at(b, a, m);
        if m < k {
            assert(a[m] == b[m]);
        }
        if k < m {
            assert(a[k] == b[k]);
        }
    }
    if k == a.len() && k == b.len() {
        assert(a =~= b);
    }
}

/// Any two sequences part somewhere.
pub proof fn lemma_parting_exists(a: Seq<u8>, b: Seq<u8>, from: int) -> (k: int)
    requires
        0 <= from <= a.len(),
        from <= b.len(),
        agree_before(a, b, from),
    ensures
        part_at(a, b, k),
    decreases a.len() - from,
{
    if from < a.len() && from < b.len() && a[from] == b[from] {
        lemma_parting_exists(a, b, from + 1)
    } else {
        from
    }
}

/// No sequence comes before itself, and of two sequences at most one comes
/// before the other.
pub proof fn lemma_lex_less_asymmetric(a: Seq<u8>, b: Seq<u8>)
    ensures
        !(lex_less(a, b) && lex_less(b, a)),
{
    let k = lemma_parting_exists(a, b, 0);
    lemma_order_decided_where_parting(a, b, k);
}

/// Of two different sequences one comes before the other.
pub proof fn lemma_lex_less_connected(a: Seq<u8>, b: Seq<u8>)
    ensures
        a == b || lex_less(a, b) || lex_less(b, a),
{
    let k = lemma_parting_exists(a, b, 0);
    lemma_order_decided_where_parting(a, b, k);
}

/// The order is transitive.
pub proof fn lemma_lex_less_transitive(a: Seq<u8>, b: Seq<u8>, c: Seq<u8>)
    requires
        lex_less(a, b),
        lex_less(b, c),
    ensures
        lex_less(a, c),
{
    let i = choose|i: int| falls_below_at(a, b, i);
    let j = choose|j: int| falls_below_at(b, c, j);
    let k = if i <= j { i } else { j };
    assert(falls_below_at(a, c, k));
}

/// The order of names is strict and total: exactly one of `a` before `b`,
/// `a` equal to `b`, `b` before `a` holds.
pub proof fn lemma_name_order_total(a: Seq<char>, b: Seq<char>)
    ensures
        a == b || name_less(a, b) || name_less(b, a),
        !(name_less(a, b) && name_less(b, a)),
        !name_less(a, a),
{
    lemma_lex_less_asymmetric(encode_utf8(a), encode_utf8(b));
    lemma_lex_less_asymmetric(encode_utf8(a), encode_utf8(a));
    lemma_lex_less_connected(encode_utf8(a), encode_utf8(b));
    if encode_utf8(a) == encode_utf8(b) {
        encode_utf8_decode_utf8(a);
        encode_utf8_decode_utf8(b);
    }
}

/// The order of names is transitive.
pub proof fn lemma_name_order_transitive(a: Seq<char>, b: Seq<char>, c: Seq<char>)
    requires
        name_less(a, b),
        name_less(b, c),
    ensures
        name_less(a, c),
{
    lemma_lex_less_transitive(encode_utf8(a), encode_utf8(b), encode_utf8(c));
}

/// Whether `a` comes strictly before `b` in lexicographic order.
pub fn bytes_less(a: &[u8], b: &[u8]) -> (less: bool)
    ensures
        less == lex_less(a@, b@),
{
    let mut i: usize = 0;
    while i < a.len() && i < b.len() && a[i] == b[i]
        invariant
            i <= a.len(),
            i <= b.len(),
            agree_before(a@, b@, i as int),
        decreases a.len() - i,
    {
        i += 1;
    }
    proof {
        lemma_order_decided_where_parting(a@, b@, i as int);
    }
    if i < b.len() {
        i == a.len() || a[i] < b[i]
    } else {
        false
    }
}

/// Whether `a` and `b` hold the same bytes.
pub fn bytes_equal(a: &[u8], b: &[u8]) -> (equal: bool)
    ensures
        equal == (a@ == b@),
{
    if a.len() != b.len() {
        return false;
    }
    let mut i: usize = 0;
    while i < a.len() && a[i] == b[i]
        invariant
            a.len() == b.len(),
            i <= a.len(),
            agree_before(a@, b@, i as int),
        decreases a.len() - i,
    {
        i += 1;
    }
    proof {
        lemma_order_decided_where_parting(a@, b@, i as int);
    }
    i == a.len()
}

/// Whether `a` and `b` are the same text.
pub fn str_equal(a: &str, b: &str) -> (equal: bool)
    ensures
        equal == (a@ == b@),
{
    proof {
        encode_utf8_decode_utf8(a@);
        encode_utf8_decode_utf8(b@);
    }
    bytes_equal(a.as_bytes(), b.as_bytes())
}

/// Whether the name `a` comes strictly before the name `b`.
pub fn str_less(a: &str, b: &str) -> (less: bool)
    ensures
        less == name_less(a@, b@),
{
    bytes_less(a.as_bytes(), b.as_bytes())
}

} // verus!
