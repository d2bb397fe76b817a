//! Reading fixed-length fields from the front of a byte slice, and building
//! byte strings by concatenation.
use vstd::prelude::*;
use crate::errors::ProtocolError;

verus! {

/// The two-byte big-endian encoding of `n` (`I2OSP(n, 2)`).
pub open spec fn i2osp_2_spec(n: nat) -> Seq<u8> {
    seq![(n / 256) as u8, (n % 256) as u8]
}

/// `s` preceded by its length as two big-endian bytes.
pub open spec fn len_prefixed(s: Seq<u8>) -> Seq<u8> {
    i2osp_2_spec(s.len()) + s
}

/// What taking `n` bytes from the front of `input` gives: those bytes where
/// there are enough, and the input that is left.
pub open spec fn take_spec(input: Seq<u8>, n: nat) -> (Option<Seq<u8>>, Seq<u8>) {
    if input.len() < n {
        (None, input)
    } else {
        (Some(input.subrange(0, n as int)), input.subrange(n as int, input.len() as int))
    }
}

/// Takes `n` bytes from the front of `input`, advancing it past them.
///
/// Fails with [`ProtocolError::SerializationError`], leaving `input` as it
/// was, when fewer than `n` bytes are left.
pub fn take_array(input: &mut &[u8], n: usize) -> (res: Result<Vec<u8>, ProtocolError>)
    ensures
        final(input)@ == take_spec(old(input)@, n as nat).1,
        res is Ok <==> take_spec(old(input)@, n as nat).0 is Some,
        res is Ok ==> res.unwrap()@ == take_spec(old(input)@, n as nat).0.unwrap(),
        old(input)@.len() >= n ==> {
            &&& res matches Ok(v)
            &&& v@ == old(input)@.subrange(0, n as int)
            &&& final(input)@ == old(input)@.subrange(n as int, old(input)@.len() as int)
        },
        old(input)@.len() < n ==> {
            &&& res == Err::<Vec<u8>, ProtocolError>(ProtocolError::SerializationError)
            &&& final(input)@ == old(input)@
        },
{
    if input.len() < n {
        return Err(ProtocolError::SerializationError);
    }
    let (head, tail) = input.split_at(n);
    *input = tail;
    Ok(vstd::slice::slice_to_vec(head))
}

/// Appends the bytes of `s` to `v`.
pub fn append_bytes(v: &mut Vec<u8>, s: &[u8])
    ensures
        final(v)@ == old(v)@ + s@,
{
    let mut i: usize = 0;
    while i < s.len()
        invariant
            i <= s@.len(),
            v@ == old(v)@ + s@.subrange(0, i as int),
        decreases s@.len() - i,
    {
        v.push(s[i]);
        i = i + 1;
        assert(s@.subrange(0, i as int) == s@.subrange(0, (i - 1) as int).push(s@[i - 1]));
    }
    assert(s@.subrange(0, s@.len() as int) == s@);
}

/// A fresh copy of the bytes of `s`.
pub fn copy_bytes(s: &[u8]) -> (r: Vec<u8>)
    ensures
        r@ == s@,
{
    vstd::slice::slice_to_vec(s)
}

/// Concatenates `a` and `b` into a fresh vector.
pub fn concat_bytes(a: &[u8], b: &[u8]) -> (r: Vec<u8>)
    ensures
        r@ == a@ + b@,
{
    let mut r = copy_bytes(a);
    append_bytes(&mut r, b);
    r
}

/// The two-byte big-endian encoding of `n`.
pub fn i2osp_2(n: usize) -> (r: Vec<u8>)
    requires
        n < 65536,
    ensures
        r@ == i2osp_2_spec(n as nat),
{
    let mut r = Vec::new();
    r.push((n / 256) as u8);
    r.push((n % 256) as u8);
    r
}

/// Appends `s`, preceded by its length as two big-endian bytes, to `v`.
pub fn append_len_prefixed(v: &mut Vec<u8>, s: &[u8])
    requires
        s@.len() < 65536,
    ensures
        final(v)@ == old(v)@ + len_prefixed(s@),
{
    let len = i2osp_2(s.len());
    append_bytes(v, len.as_slice());
    append_bytes(v, s);
    assert(old(v)@ + len@ + s@ == old(v)@ + (len@ + s@));
}

} // verus!
