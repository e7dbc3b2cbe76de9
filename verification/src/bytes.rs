//! Small verified helpers for building and comparing the byte strings the
//! engine emits: protocol parameter text and DSN report bodies.

use vstd::prelude::*;
use vstd::string::StringSliceAdditionalSpecFns;

verus! {

/// Decimal ASCII rendering of a nonnegative integer, most significant digit
/// first.
pub open spec fn dec_str(n: int) -> Seq<u8>
    decreases n,
{
    if n < 10 {
        seq![(0x30 + n) as u8]
    } else {
        dec_str(n / 10).push((0x30 + n % 10) as u8)
    }
}

/// Appends the bytes of `s` to `out`.
pub fn append_slice(out: &mut Vec<u8>, s: &[u8])
    ensures
        final(out)@ == old(out)@ + s@,
{
    let mut k: usize = 0;
    while k < s.len()
        invariant
            k <= s@.len(),
            out@ == old(out)@ + s@.take(k as int),
        decreases s@.len() - k,
    {
        let b = *vstd::slice::slice_index_get(s, k);
        out.push(b);
        proof {
            assert(s@.take((k + 1) as int) == s@.take(k as int).push(s@[k as int]));
        }
        k = k + 1;
    }
    proof {
        assert(s@.take(s@.len() as int) == s@);
    }
}

/// Appends the bytes of an ASCII keyword to `out`.
pub fn append_str(out: &mut Vec<u8>, s: &str)
    ensures
        final(out)@ == old(out)@ + s.spec_bytes(),
{
    append_slice(out, s.as_bytes());
}

/// Appends a copy of `s` to `out`.
pub fn append_vec(out: &mut Vec<u8>, s: &Vec<u8>)
    ensures
        final(out)@ == old(out)@ + s@,
{
    append_slice(out, s.as_slice());
}

/// The bytes of an ASCII keyword, as a fresh vector.
pub fn str_bytes(s: &str) -> (r: Vec<u8>)
    ensures
        r@ == s.spec_bytes(),
{
    let mut r: Vec<u8> = Vec::new();
    append_str(&mut r, s);
    proof {
        assert(Seq::<u8>::empty() + s.spec_bytes() == s.spec_bytes());
    }
    r
}

/// A fresh copy of `s`.
pub fn copy_bytes(s: &Vec<u8>) -> (r: Vec<u8>)
    ensures
        r@ == s@,
{
    let mut r: Vec<u8> = Vec::new();
    append_vec(&mut r, s);
    proof {
        assert(r@ == Seq::<u8>::empty() + s@);
        assert(Seq::<u8>::empty() + s@ == s@);
    }
    r
}

/// Whether two byte strings hold the same bytes.
pub fn bytes_eq(a: &Vec<u8>, b: &Vec<u8>) -> (r: bool)
    ensures
        r == (a@ == b@),
{
    if a.len() != b.len() {
        proof {
            assert(a@ != b@);
        }
        return false;
    }
    let mut k: usize = 0;
    while k < a.len()
        invariant
            k <= a@.len(),
            a@.len() == b@.len(),
            forall|j: int| 0 <= j < k ==> a@[j] == b@[j],
        decreases a@.len() - k,
    {
        if a[k] != b[k] {
            proof {
                assert(a@ != b@);
            }
            return false;
        }
        k = k + 1;
    }
    proof {
        assert(a@ =~= b@);
    }
    true
}

/// Appends the decimal rendering of `n` to `out`.
pub fn append_dec(out: &mut Vec<u8>, n: u64)
    ensures
        final(out)@ == old(out)@ + dec_str(n as int),
    decreases n,
{
    if n >= 10 {
        append_dec(out, n / 10);
    }
    out.push(0x30 + (n % 10) as u8);
}

} // verus!
