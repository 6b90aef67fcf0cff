//! Big-endian byte encodings, under which the order of bytes is the order
//! of numbers.

use vstd::prelude::*;

verus! {

/// The number that bytes stand for, most significant byte first.
pub open spec fn be_number(s: Seq<u8>) -> nat
    decreases s.len(),
{
    if s.len() == 0 {
        0
    } else {
        be_number(s.drop_last()) * 256 + s.last() as nat
    }
}

/// The `n` bytes of `x`, most significant byte first; of `x` modulo
/// `256^n` where `x` does not fit.
pub open spec fn be_digits(x: nat, n: nat) -> Seq<u8>
    decreases n,
{
    if n == 0 {
        Seq::<u8>::empty()
    } else {
        be_digits(x / 256, (n - 1) as nat).push((x % 256) as u8)
    }
}

/// `256^n`, the number of values that `n` bytes can take.
pub open spec fn span(n: nat) -> nat
    decreases n,
{
    if n == 0 {
        1
    } else {
        256 * span((n - 1) as nat)
    }
}

/// `a` stands before `b` in the order of raw bytes: at the first place
/// where they differ `a` has the smaller byte, or `a` ends where `b` goes
/// on.
pub open spec fn bytes_before(a: Seq<u8>, b: Seq<u8>) -> bool {
    ||| exists|i: int|
        0 <= i < a.len() && i < b.len() && a.subrange(0, i) == b.subrange(0, i) && #[trigger] a[i]
            < b[i]
    ||| (a.len() < b.len() && a == b.subrange(0, a.len() as int))
}

/// `n` bytes stand for a number below `256^n`.
pub proof fn lemma_be_number_below_span(s: Seq<u8>)
    ensures
        be_number(s) < span(s.len()),
    decreases s.len(),
{
    if s.len() > 0 {
        lemma_be_number_below_span(s.drop_last());
    }
}

/// The bytes of a number are as many as asked for and stand for the
/// number, where it fits.
pub proof fn lemma_be_digits(x: nat, n: nat)
    ensures
        be_digits(x, n).len() == n,
        x < span(n) ==> be_number(be_digits(x, n)) == x,
    decreases n,
{
    if n > 0 {
        lemma_be_digits(x / 256, (n - 1) as nat);
        let d = be_digits(x, n);
        assert(d.drop_last() =~= be_digits(x / 256, (n - 1) as nat));
    }
}

/// Among byte strings of one length, the order of bytes is the order of
/// the numbers that they stand for, and different strings stand for
/// different numbers.
pub proof fn lemma_byte_order_is_number_order(a: Seq<u8>, b: Seq<u8>)
    requires
        a.len() == b.len(),
    ensures
        bytes_before(a, b) <==> be_number(a) < be_number(b),
        be_number(a) == be_number(b) ==> a == b,
    decreases a.len(),
{
    if a.len() > 0 {
        let a0 = a.drop_last();
        let b0 = b.drop_last();
        let n = a.len() - 1;
        lemma_byte_order_is_number_order(a0, b0);
        if be_number(a0) == be_number(b0) {
            assert(a0 == b0);
            assert(a.subrange(0, n) =~= a0);
            assert(b.subrange(0, n) =~= b0);
            if a[n] < b[n] {
                assert(bytes_before(a, b));
            } else {
                if bytes_before(a, b) {
                    let i = choose|i: int|
                        0 <= i < a.len() && i < b.len() && a.subrange(0, i) == b.subrange(0, i)
                            && #[trigger] a[i] < b[i];
                    if i < n {
                        assert(a0[i] == a[i]);
                        assert(b0[i] == b[i]);
                    }
                }
                if a[n] == b[n] {
                    assert forall|i: int| 0 <= i < a.len() implies a[i] == b[i] by {
                        if i < n {
                            assert(a[i] == a0[i]);
                            assert(b[i] == b0[i]);
                        }
                    }
                    assert(a =~= b);
                }
            }
        } else if be_number(a0) < be_number(b0) {
            let i = choose|i: int|
                0 <= i < a0.len() && i < b0.len() && a0.subrange(0, i) == b0.subrange(0, i)
                    && #[trigger] a0[i] < b0[i];
            assert(a.subrange(0, i) =~= a0.subrange(0, i));
            assert(b.subrange(0, i) =~= b0.subrange(0, i));
            assert(a[i] == a0[i] && b[i] == b0[i]);
            assert(bytes_before(a, b));
        } else {
            if bytes_before(a, b) {
                let i = choose|i: int|
                    0 <= i < a.len() && i < b.len() && a.subrange(0, i) == b.subrange(0, i)
                        && #[trigger] a[i] < b[i];
                if i < n {
                    assert(a0.subrange(0, i) =~= a.subrange(0, i));
                    assert(b0.subrange(0, i) =~= b.subrange(0, i));
                    assert(a0[i] == a[i] && b0[i] == b[i]);
                    assert(bytes_before(a0, b0));
                } else {
                    assert(a0 =~= a.subrange(0, n));
                    assert(b0 =~= b.subrange(0, n));
                }
            }
        }
    }
}

/// Two byte strings, one after the other, stand for the first number
/// shifted by the length of the second, plus the second.
pub proof fn lemma_be_number_concat(a: Seq<u8>, b: Seq<u8>)
    ensures
        be_number(a + b) == be_number(a) * span(b.len()) + be_number(b),
    decreases b.len(),
{
    if b.len() == 0 {
        assert(a + b =~= a);
        assert(be_number(a) * 1 == be_number(a)) by (nonlinear_arith);
    } else {
        lemma_be_number_concat(a, b.drop_last());
        let whole = a + b;
        let rest = span((b.len() - 1) as nat);
        assert(whole.drop_last() =~= a + b.drop_last());
        assert(whole.last() == b.last());
        assert(be_number(whole) == be_number(a + b.drop_last()) * 256 + b.last() as nat);
        assert(span(b.len()) == 256 * rest);
        assert(be_number(a) * (256 * rest) == (be_number(a) * rest) * 256) by (nonlinear_arith);
        assert((be_number(a) * rest + be_number(b.drop_last())) * 256 == (be_number(a) * rest)
            * 256 + be_number(b.drop_last()) * 256) by (nonlinear_arith);
    }
}

/// Eight bytes take `2^64` values, sixteen `2^128`, thirty-two `2^256`.
pub proof fn lemma_spans()
    ensures
        span(8) == 0x1_0000_0000_0000_0000,
        span(16) == 0x1_0000_0000_0000_0000_0000_0000_0000_0000,
        span(32)
            == 0x1_0000_0000_0000_0000_0000_0000_0000_0000_0000_0000_0000_0000_0000_0000_0000_0000,
{
    reveal_with_fuel(span, 9);
    assert(span(8) == 0x1_0000_0000_0000_0000);
    assert(span(16) == span(8) * span(8)) by {
        lemma_span_add(8, 8);
    }
    assert(span(32) == span(16) * span(16)) by {
        lemma_span_add(16, 16);
    }
}

/// `256^(m + n)` is `256^m * 256^n`.
pub proof fn lemma_span_add(m: nat, n: nat)
    ensures
        span(m + n) == span(m) * span(n),
    decreases n,
{
    if n > 0 {
        lemma_span_add(m, (n - 1) as nat);
        assert(256 * (span(m) * span((n - 1) as nat)) == span(m) * (256 * span((n - 1) as nat)))
            by (nonlinear_arith);
    } else {
        assert(span(m) * 1 == span(m));
    }
}

/// Writes the `n` bytes of `x` at the end of `out`, most significant byte
/// first.
pub fn append_be(out: &mut Vec<u8>, x: u128, n: usize)
    ensures
        final(out)@ == old(out)@ + be_digits(x as nat, n as nat),
    decreases n,
{
    if n > 0 {
        append_be(out, x / 256, n - 1);
        out.push((x % 256) as u8);
        proof {
            assert(final(out)@ =~= old(out)@ + be_digits(x as nat, n as nat));
        }
    } else {
        proof {
            assert(old(out)@ + be_digits(x as nat, 0) =~= old(out)@);
        }
    }
}

} // verus!
