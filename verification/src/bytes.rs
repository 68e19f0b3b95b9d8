//! Byte-string helpers the routing and protocol code builds on.

use vstd::prelude::*;

verus! {

/// Whether two byte strings are equal.
pub fn bytes_equal(a: &[u8], b: &[u8]) -> (eq: bool)
    ensures
        eq == (a@ == b@),
{
    if a.len() != b.len() {
        return false;
    }
    let mut i: usize = 0;
    while i < a.len()
        invariant
            a@.len() == b@.len(),
            i <= a@.len(),
            forall|j: int| 0 <= j < i ==> a@[j] == b@[j],
        decreases a@.len() - i,
    {
        if a[i] != b[i] {
            return false;
        }
        i = i + 1;
    }
    assert(a@ =~= b@);
    true
}

/// Appends a byte string to a buffer.
pub fn append_bytes(out: &mut Vec<u8>, s: &[u8])
    ensures
        final(out)@ == old(out)@ + s@,
{
    let mut i: usize = 0;
    while i < s.len()
        invariant
            i <= s@.len(),
            out@ == old(out)@ + s@.take(i as int),
        decreases s@.len() - i,
    {
        out.push(s[i]);
        i = i + 1;
        assert(out@ =~= old(out)@ + s@.take(i as int));
    }
    assert(s@.take(i as int) =~= s@);
}

/// `s` written `n` times, one copy after the other.
pub open spec fn repeated(s: Seq<u8>, n: nat) -> Seq<u8>
    decreases n,
{
    if n == 0 {
        Seq::empty()
    } else {
        repeated(s, (n - 1) as nat) + s
    }
}

/// Writing `s` out `n` times gives `n` times as many bytes.
pub proof fn lemma_repeated_len(s: Seq<u8>, n: nat)
    ensures
        repeated(s, n).len() == n * s.len(),
    decreases n,
{
    if n == 0 {
        assert(n * s.len() == 0) by (nonlinear_arith)
            requires
                n == 0,
        ;
    } else {
        lemma_repeated_len(s, (n - 1) as nat);
        assert(n * s.len() == (n - 1) * s.len() + s.len()) by (nonlinear_arith);
    }
}

/// Byte `k` of `s` written `n` times is byte `k % |s|` of `s`.
pub proof fn lemma_repeated_index(s: Seq<u8>, n: nat, k: int)
    requires
        0 <= k < n * s.len(),
    ensures
        s.len() > 0,
        repeated(s, n)[k] == s[k % (s.len() as int)],
    decreases n,
{
    let m = s.len() as int;
    assert(n > 0 && m > 0) by (nonlinear_arith)
        requires
            0 <= k < n * m,
            n >= 0,
            m >= 0,
    ;
    lemma_repeated_len(s, (n - 1) as nat);
    let before = ((n - 1) as nat) * s.len();
    assert(n * s.len() == before + s.len()) by (nonlinear_arith)
        requires
            before == ((n - 1) as nat) * s.len(),
            n > 0,
    ;
    if k < before {
        lemma_repeated_index(s, (n - 1) as nat, k);
    } else {
        let j = k - before;
        assert(repeated(s, n)[k] == s[j]);
        vstd::arithmetic::div_mod::lemma_mod_multiples_vanish((n - 1) as int, j, m);
        vstd::arithmetic::div_mod::lemma_small_mod(j as nat, m as nat);
        assert(m * ((n - 1) as int) == before) by (nonlinear_arith)
            requires
                before == ((n - 1) as nat) * s.len(),
                m == s.len(),
                n > 0,
        ;
    }
}

/// `s` repeated `n` times, as a slice's `repeat` builds it.
pub fn repeat_bytes(s: &[u8], n: usize) -> (r: Vec<u8>)
    requires
        n * s@.len() <= usize::MAX,
    ensures
        r@ == repeated(s@, n as nat),
{
    let mut r: Vec<u8> = Vec::new();
    let mut k: usize = 0;
    while k < n
        invariant
            k <= n,
            r@ == repeated(s@, k as nat),
        decreases n - k,
    {
        append_bytes(&mut r, s);
        k = k + 1;
    }
    r
}

} // verus!
