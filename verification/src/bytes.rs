//! Fixed-width byte layouts: big- and little-endian integers, and writes of a
//! run of bytes into the middle of a buffer.

use vstd::endian::Endian;
use vstd::prelude::*;

verus! {

/// `target` with the bytes from `at` on replaced by `run`.
pub open spec fn overwrite(target: Seq<u8>, at: int, run: Seq<u8>) -> Seq<u8> {
    target.take(at) + run + target.skip(at + run.len())
}

/// The two bytes of `value`, most significant first.
pub open spec fn be16(value: u16) -> Seq<u8> {
    seq![(value / 256) as u8, (value % 256) as u8]
}

/// Byte `i` of `value` when its least significant byte has index 0.
pub open spec fn byte_of(value: u64, i: int) -> u8 {
    (value >> ((8 * i) as u64)) as u8
}

/// The eight bytes of `value`, least significant first.
pub open spec fn le64(value: u64) -> Seq<u8> {
    Seq::new(8, |i: int| byte_of(value, i))
}

/// The eight bytes of `value`, most significant first.
pub open spec fn be64(value: u64) -> Seq<u8> {
    Seq::new(8, |i: int| byte_of(value, 7 - i))
}

/// The eight bytes of `value` in the given order.
pub open spec fn bytes64(value: u64, order: Endian) -> Seq<u8> {
    match order {
        Endian::Little => le64(value),
        Endian::Big => be64(value),
    }
}

/// Two integers with the same eight bytes, in the same order, are equal.
pub proof fn bytes64_injective(a: u64, b: u64, order: Endian)
    requires
        bytes64(a, order) == bytes64(b, order),
    ensures
        a == b,
{
    assert forall|i: int| 0 <= i < 8 implies byte_of(a, i) == byte_of(b, i) by {
        match order {
            Endian::Little => {
                assert(le64(a)[i] == le64(b)[i]);
            },
            Endian::Big => {
                assert(be64(a)[7 - i] == be64(b)[7 - i]);
            },
        }
    }
    assert(byte_of(a, 0) == byte_of(b, 0));
    assert(byte_of(a, 1) == byte_of(b, 1));
    assert(byte_of(a, 2) == byte_of(b, 2));
    assert(byte_of(a, 3) == byte_of(b, 3));
    assert(byte_of(a, 4) == byte_of(b, 4));
    assert(byte_of(a, 5) == byte_of(b, 5));
    assert(byte_of(a, 6) == byte_of(b, 6));
    assert(byte_of(a, 7) == byte_of(b, 7));
    assert(a == b) by (bit_vector)
        requires
            (a >> 0u64) as u8 == (b >> 0u64) as u8,
            (a >> 8u64) as u8 == (b >> 8u64) as u8,
            (a >> 16u64) as u8 == (b >> 16u64) as u8,
            (a >> 24u64) as u8 == (b >> 24u64) as u8,
            (a >> 32u64) as u8 == (b >> 32u64) as u8,
            (a >> 40u64) as u8 == (b >> 40u64) as u8,
            (a >> 48u64) as u8 == (b >> 48u64) as u8,
            (a >> 56u64) as u8 == (b >> 56u64) as u8,
    ;
}

/// The big-endian bytes of a 16-bit integer.
pub(crate) fn u16_to_be(value: u16) -> (bytes: [u8; 2])
    ensures
        bytes@ == be16(value),
{
    let bytes: [u8; 2] = [(value / 256) as u8, (value % 256) as u8];
    assert(bytes@ =~= be16(value));
    bytes
}

/// The 16-bit integer whose big-endian bytes are `high` and `low`.
pub(crate) fn u16_from_be(high: u8, low: u8) -> (value: u16)
    ensures
        value == high * 256 + low,
{
    high as u16 * 256 + low as u16
}

/// The big-endian bytes of a 64-bit integer.
pub(crate) fn u64_to_be(value: u64) -> (bytes: [u8; 8])
    ensures
        bytes@ == be64(value),
{
    let bytes: [u8; 8] = [
        (value >> 56) as u8,
        (value >> 48) as u8,
        (value >> 40) as u8,
        (value >> 32) as u8,
        (value >> 24) as u8,
        (value >> 16) as u8,
        (value >> 8) as u8,
        (value >> 0) as u8,
    ];
    assert(bytes@ =~= be64(value));
    bytes
}

/// Calls `u64::to_ne_bytes`: the bytes of `value` in the order of the machine
/// that runs the code.
#[verifier::external_body]
pub(crate) fn u64_to_native(value: u64) -> (bytes: [u8; 8])
    ensures
        bytes@ == bytes64(value, vstd::endian::endianness()),
{
    value.to_ne_bytes()
}

/// Writes `run` into `target` from index `at` on.
pub(crate) fn write_array<const N: usize>(target: &mut [u8; N], at: usize, run: &[u8])
    requires
        at + run@.len() <= N,
    ensures
        final(target)@ == overwrite(old(target)@, at as int, run@),
{
    let ghost before = target@;
    let mut i: usize = 0;
    while i < run.len()
        invariant
            i <= run@.len(),
            at + run@.len() <= N,
            before.len() == N,
            target@ == overwrite(before, at as int, run@.take(i as int)),
        decreases run@.len() - i,
    {
        target[at + i] = run[i];
        i = i + 1;
        assert(target@ =~= overwrite(before, at as int, run@.take(i as int)));
    }
    assert(run@.take(i as int) =~= run@);
}

/// Writes `run` into `target` from index `at` on.
pub(crate) fn write_vec(target: &mut Vec<u8>, at: usize, run: &[u8])
    requires
        at + run@.len() <= old(target)@.len(),
    ensures
        final(target)@ == overwrite(old(target)@, at as int, run@),
{
    let ghost before = target@;
    let length: usize = target.len();
    let mut i: usize = 0;
    while i < run.len()
        invariant
            i <= run@.len(),
            at + run@.len() <= length,
            before.len() == length,
            target@ == overwrite(before, at as int, run@.take(i as int)),
        decreases run@.len() - i,
    {
        target[at + i] = run[i];
        i = i + 1;
        assert(target@ =~= overwrite(before, at as int, run@.take(i as int)));
    }
    assert(run@.take(i as int) =~= run@);
}

/// What a 64-bit counter shows of a count.
pub open spec fn wrapped(count: int) -> u64 {
    (count % 0x1_0000_0000_0000_0000) as u64
}

/// `count` copies of `byte`.
pub open spec fn filled(byte: u8, count: int) -> Seq<u8> {
    Seq::new(count as nat, |i: int| byte)
}

/// Appends `run` to `target`.
pub(crate) fn append(target: &mut Vec<u8>, run: &[u8])
    ensures
        final(target)@ == old(target)@ + run@,
{
    let ghost before = target@;
    let mut i: usize = 0;
    assert(before =~= before + run@.take(0));
    while i < run.len()
        invariant
            i <= run@.len(),
            target@ == before + run@.take(i as int),
        decreases run@.len() - i,
    {
        target.push(run[i]);
        i = i + 1;
        assert(target@ =~= before + run@.take(i as int));
    }
    assert(run@.take(i as int) =~= run@);
}

/// Appends `count` copies of `byte` to `target`.
pub(crate) fn append_filled(target: &mut Vec<u8>, byte: u8, count: usize)
    ensures
        final(target)@ == old(target)@ + filled(byte, count as int),
{
    let ghost before = target@;
    let mut i: usize = 0;
    assert(before =~= before + filled(byte, 0));
    while i < count
        invariant
            i <= count,
            target@ == before + filled(byte, i as int),
        decreases count - i,
    {
        target.push(byte);
        i = i + 1;
        assert(target@ =~= before + filled(byte, i as int));
    }
}

/// Whether two byte strings are equal.
pub(crate) fn equal(a: &[u8], b: &[u8]) -> (same: bool)
    ensures
        same == (a@ == b@),
{
    if a.len() != b.len() {
        return false;
    }
    let mut i: usize = 0;
    while i < a.len()
        invariant
            i <= a@.len(),
            a@.len() == b@.len(),
            forall|j: int| 0 <= j < i ==> a@[j] == b@[j],
        decreases a@.len() - i,
    {
        if a[i] != b[i] {
            return false;
        }
        i = i + 1;
    }
    assert(a@ =~= b@);
    true
}

} // verus!
