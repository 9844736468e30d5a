//! The fields of a datagram: fixed-width big-endian numbers and byte arrays.
//!
//! Decoding moves a slice forward past what was read; encoding moves a mutable slice
//! forward past what was written and counts the bytes.

use crate::input_event::F64Bits;
use crate::proto::ProtocolError;
use vstd::prelude::*;

verus! {

/// The big-endian bytes of `n`, `width` of them.
pub open spec fn be_bytes(n: nat, width: nat) -> Seq<u8>
    decreases width,
{
    if width == 0 {
        Seq::empty()
    } else {
        be_bytes(n / 256, (width - 1) as nat).push((n % 256) as u8)
    }
}

/// The number whose big-endian bytes are `bytes`.
pub open spec fn be_value(bytes: Seq<u8>) -> nat
    decreases bytes.len(),
{
    if bytes.len() == 0 {
        0
    } else {
        be_value(bytes.drop_last()) * 256 + bytes.last() as nat
    }
}

/// How many numbers `width` bytes can tell apart.
pub open spec fn be_capacity(width: nat) -> nat
    decreases width,
{
    if width == 0 {
        1
    } else {
        256 * be_capacity((width - 1) as nat)
    }
}

/// The number that stands for `n` in two's complement on 32 bits.
pub open spec fn twos_complement(n: i32) -> nat {
    if n < 0 {
        (n + 0x1_0000_0000) as nat
    } else {
        n as nat
    }
}

/// The signed number that `n` stands for in two's complement on 32 bits.
pub open spec fn from_twos_complement(n: nat) -> i32 {
    if n < 0x8000_0000 {
        n as i32
    } else {
        (n - 0x1_0000_0000) as i32
    }
}

/// The array with the bytes of `bytes`, which are `N` in number.
pub open spec fn array_of<const N: usize>(bytes: Seq<u8>) -> [u8; N] {
    choose|a: [u8; N]| a@ == bytes
}

/// A number is as wide as it was asked to be.
pub proof fn lemma_be_bytes_len(n: nat, width: nat)
    ensures
        be_bytes(n, width).len() == width,
    decreases width,
{
    if width > 0 {
        lemma_be_bytes_len(n / 256, (width - 1) as nat);
    }
}

/// Reading back the bytes of a number gives the number, if it fits the width.
pub proof fn lemma_be_round_trip(n: nat, width: nat)
    requires
        n < be_capacity(width),
    ensures
        be_value(be_bytes(n, width)) == n,
    decreases width,
{
    if width > 0 {
        lemma_be_round_trip(n / 256, (width - 1) as nat);
        let bytes = be_bytes(n, width);
        assert(bytes.drop_last() =~= be_bytes(n / 256, (width - 1) as nat));
    }
}

/// Bytes read as a number fit the width they came from, and writing the number gives the
/// bytes back.
pub proof fn lemma_be_value_round_trip(bytes: Seq<u8>)
    ensures
        be_value(bytes) < be_capacity(bytes.len()),
        be_bytes(be_value(bytes), bytes.len()) == bytes,
    decreases bytes.len(),
{
    if bytes.len() > 0 {
        let head = bytes.drop_last();
        lemma_be_value_round_trip(head);
        assert(be_bytes(be_value(bytes), bytes.len()) =~= bytes);
    }
}

/// What the widths in use can hold.
pub proof fn lemma_be_capacities()
    ensures
        be_capacity(1) == 0x100,
        be_capacity(4) == 0x1_0000_0000,
        be_capacity(8) == 0x1_0000_0000_0000_0000,
{
    reveal_with_fuel(be_capacity, 9);
}

/// Signed numbers survive two's complement.
pub proof fn lemma_twos_complement_round_trip(n: i32)
    ensures
        twos_complement(n) < 0x1_0000_0000,
        from_twos_complement(twos_complement(n)) == n,
{
}

/// Every sequence of `N` bytes is the view of exactly one array.
pub proof fn lemma_array_of<const N: usize>(bytes: Seq<u8>)
    requires
        bytes.len() == N,
    ensures
        array_of::<N>(bytes)@ == bytes,
        forall|a: [u8; N]| #[trigger] a@ == bytes ==> a == array_of::<N>(bytes),
{
    lemma_array_exists::<N>(bytes, N as nat);
    let witness = choose|a: [u8; N]| #[trigger] a@.take(N as int) == bytes.take(N as int);
    assert(witness@ =~= witness@.take(N as int));
    assert(bytes =~= bytes.take(N as int));
    assert(witness@ == bytes);
    assert forall|a: [u8; N]| #[trigger] a@ == bytes implies a == array_of::<N>(bytes) by {
        lemma_array_ext(a, array_of::<N>(bytes));
    }
}

proof fn lemma_array_exists<const N: usize>(bytes: Seq<u8>, k: nat)
    requires
        bytes.len() == N,
        k <= N,
    ensures
        exists|a: [u8; N]| #[trigger] a@.take(k as int) == bytes.take(k as int),
    decreases k,
{
    if k == 0 {
        let a: [u8; N] = [0u8; N];
        assert(a@.take(0) =~= bytes.take(0));
    } else {
        let i: int = k - 1;
        lemma_array_exists::<N>(bytes, i as nat);
        let a = choose|a: [u8; N]| #[trigger] a@.take(i) == bytes.take(i);
        let b = vstd::array::spec_array_update(a, i, bytes[i]);
        assert(b@ == a@.update(i, bytes[i]));
        assert forall|j: int| 0 <= j < k implies b@.take(k as int)[j] == bytes.take(k as int)[j] by {
            if j < i {
                assert(a@.take(i)[j] == bytes.take(i)[j]);
            }
        }
        assert(b@.take(k as int) =~= bytes.take(k as int));
    }
}

proof fn lemma_array_ext<const N: usize>(a: [u8; N], b: [u8; N])
    requires
        a@ == b@,
    ensures
        a == b,
{
    assert forall|i: int| 0 <= i < N implies a[i] == b[i] by {
        assert(a@[i] == b@[i]);
    }
    assert(a =~= b);
}

proof fn lemma_be_bytes_4(n: nat)
    ensures
        be_bytes(n, 4) == seq![
            (n / 0x100_0000 % 0x100) as u8,
            (n / 0x1_0000 % 0x100) as u8,
            (n / 0x100 % 0x100) as u8,
            (n % 0x100) as u8,
        ],
{
    reveal_with_fuel(be_bytes, 5);
    assert(n / 256 / 256 == n / 0x1_0000);
    assert(n / 0x1_0000 / 256 == n / 0x100_0000);
    assert(be_bytes(n, 4) =~= seq![
        (n / 0x100_0000 % 0x100) as u8,
        (n / 0x1_0000 % 0x100) as u8,
        (n / 0x100 % 0x100) as u8,
        (n % 0x100) as u8,
    ]);
}

proof fn lemma_be_value_4(bytes: Seq<u8>)
    requires
        bytes.len() == 4,
    ensures
        be_value(bytes) == bytes[0] * 0x100_0000 + bytes[1] * 0x1_0000 + bytes[2] * 0x100 + bytes[3],
{
    reveal_with_fuel(be_value, 5);
}

/// A number is its high part, then its low part.
proof fn lemma_be_bytes_join(high: nat, high_width: nat, low: nat, low_width: nat)
    requires
        low < be_capacity(low_width),
    ensures
        be_bytes(high * be_capacity(low_width) + low, high_width + low_width) == be_bytes(
            high,
            high_width,
        ) + be_bytes(low, low_width),
    decreases low_width,
{
    let n = high * be_capacity(low_width) + low;
    if low_width == 0 {
        assert(be_capacity(0) == 1);
        assert(high * 1 == high) by (nonlinear_arith);
        assert(be_bytes(high, high_width) + be_bytes(low, 0) =~= be_bytes(high, high_width));
    } else {
        let rest = (low_width - 1) as nat;
        let c = be_capacity(rest);
        let shifted = high * c;
        assert(high * (256 * c) == 256 * shifted) by (nonlinear_arith)
            requires
                shifted == high * c,
        ;
        assert(n / 256 == shifted + low / 256);
        assert(n % 256 == low % 256);
        lemma_be_bytes_join(high, high_width, low / 256, rest);
        assert((high_width + low_width - 1) as nat == high_width + rest);
        assert(be_bytes(n, high_width + low_width) =~= be_bytes(high, high_width) + be_bytes(
            low,
            low_width,
        ));
    }
}

/// A number read from twice the width joins its high half and its low half.
proof fn lemma_be_value_halves(bytes: Seq<u8>)
    requires
        bytes.len() == 8,
    ensures
        be_value(bytes) == be_value(bytes.take(4)) * 0x1_0000_0000 + be_value(bytes.skip(4)),
{
    reveal_with_fuel(be_value, 9);
    lemma_be_value_4(bytes.take(4));
    lemma_be_value_4(bytes.skip(4));
}

/// Reads one byte.
pub fn decode_u8(data: &mut &[u8]) -> (result: Result<u8, ProtocolError>)
    requires
        old(data)@.len() >= 1,
    ensures
        result == Ok::<u8, ProtocolError>(old(data)@[0]),
        final(data)@ == old(data)@.skip(1),
{
    let (int_bytes, rest) = data.split_at(1);
    *data = rest;
    Ok(int_bytes[0])
}

/// Reads an unsigned number of four bytes.
pub fn decode_u32(data: &mut &[u8]) -> (result: Result<u32, ProtocolError>)
    requires
        old(data)@.len() >= 4,
    ensures
        result == Ok::<u32, ProtocolError>(be_value(old(data)@.take(4)) as u32),
        final(data)@ == old(data)@.skip(4),
{
    let (int_bytes, rest) = data.split_at(4);
    *data = rest;
    proof {
        lemma_be_value_4(int_bytes@);
    }
    Ok(
        int_bytes[0] as u32 * 0x100_0000 + int_bytes[1] as u32 * 0x1_0000 + int_bytes[2] as u32
            * 0x100 + int_bytes[3] as u32,
    )
}

/// Reads a signed number of four bytes in two's complement.
pub fn decode_i32(data: &mut &[u8]) -> (result: Result<i32, ProtocolError>)
    requires
        old(data)@.len() >= 4,
    ensures
        result == Ok::<i32, ProtocolError>(from_twos_complement(be_value(old(data)@.take(4)))),
        final(data)@ == old(data)@.skip(4),
{
    let n: u32 = decode_u32(data)?;
    proof {
        lemma_be_value_round_trip(old(data)@.take(4));
        lemma_be_capacities();
    }
    if n < 0x8000_0000 {
        Ok(n as i32)
    } else {
        Ok((n as i64 - 0x1_0000_0000) as i32)
    }
}

/// Reads a double of eight bytes.
pub fn decode_f64(data: &mut &[u8]) -> (result: Result<F64Bits, ProtocolError>)
    requires
        old(data)@.len() >= 8,
    ensures
        result == Ok::<F64Bits, ProtocolError>(F64Bits(be_value(old(data)@.take(8)) as u64)),
        final(data)@ == old(data)@.skip(8),
{
    let ghost bytes = old(data)@.take(8);
    let high: u32 = decode_u32(data)?;
    let low: u32 = decode_u32(data)?;
    proof {
        lemma_be_value_halves(bytes);
        assert(bytes.take(4) =~= old(data)@.take(4));
        assert(bytes.skip(4) =~= old(data)@.skip(4).take(4));
        lemma_be_value_round_trip(bytes.take(4));
        lemma_be_value_round_trip(bytes.skip(4));
        lemma_be_capacities();
        assert(data@ =~= old(data)@.skip(8));
    }
    Ok(F64Bits(high as u64 * 0x1_0000_0000 + low as u64))
}

/// Reads an array of `N` bytes.
pub fn decode_bytes<const N: usize>(data: &mut &[u8]) -> (result: Result<[u8; N], ProtocolError>)
    requires
        old(data)@.len() >= N,
    ensures
        result == Ok::<[u8; N], ProtocolError>(array_of(old(data)@.take(N as int))),
        final(data)@ == old(data)@.skip(N as int),
{
    let (bytes, rest) = data.split_at(N);
    *data = rest;
    let mut result: [u8; N] = [0u8; N];
    let mut i: usize = 0;
    while i < N
        invariant
            i <= N,
            bytes@.len() == N,
            forall|j: int| 0 <= j < i ==> result@[j] == bytes@[j],
        decreases N - i,
    {
        result[i] = bytes[i];
        i = i + 1;
    }
    proof {
        assert(result@ =~= bytes@);
        lemma_array_of::<N>(bytes@);
    }
    Ok(result)
}

/// Writes the bytes of an array.
///
/// The slice that `buf` held is split: its first `N` bytes are now `bytes`, and `buf` holds
/// the rest of it.
pub fn encode_bytes<const N: usize>(buf: &mut &mut [u8], amt: &mut usize, bytes: &[u8; N])
    requires
        old(buf)@.len() >= N,
        *old(amt) + N <= usize::MAX,
    ensures
        *final(amt) == *old(amt) + N,
        final(buf)@ == old(buf)@.skip(N as int),
        final(*old(buf))@ == bytes@ + final(*final(buf))@,
{
    let mut data: &mut [u8] = &mut [];
    std::mem::swap(buf, &mut data);
    let (dest, rest) = data.split_at_mut(N);
    let ghost end = final(dest)@;
    let mut i: usize = 0;
    while i < N
        invariant
            i <= N,
            dest@.len() == N,
            final(dest)@ == end,
            forall|j: int| 0 <= j < i ==> dest@[j] == bytes@[j],
        decreases N - i,
    {
        dest[i] = bytes[i];
        i = i + 1;
    }
    assert(dest@ =~= bytes@);
    *amt = *amt + N;
    *buf = rest;
}

/// Writes one byte.
pub fn encode_u8(buf: &mut &mut [u8], amt: &mut usize, n: u8)
    requires
        old(buf)@.len() >= 1,
        *old(amt) + 1 <= usize::MAX,
    ensures
        *final(amt) == *old(amt) + 1,
        final(buf)@ == old(buf)@.skip(1),
        final(*old(buf))@ == seq![n] + final(*final(buf))@,
{
    let src: [u8; 1] = [n];
    assert(src@ =~= seq![n]);
    encode_bytes(buf, amt, &src);
}

/// Writes an unsigned number in four bytes.
pub fn encode_u32(buf: &mut &mut [u8], amt: &mut usize, n: u32)
    requires
        old(buf)@.len() >= 4,
        *old(amt) + 4 <= usize::MAX,
    ensures
        *final(amt) == *old(amt) + 4,
        final(buf)@ == old(buf)@.skip(4),
        final(*old(buf))@ == be_bytes(n as nat, 4) + final(*final(buf))@,
{
    let src: [u8; 4] = [
        (n / 0x100_0000 % 0x100) as u8,
        (n / 0x1_0000 % 0x100) as u8,
        (n / 0x100 % 0x100) as u8,
        (n % 0x100) as u8,
    ];
    proof {
        lemma_be_bytes_4(n as nat);
        assert(src@ =~= be_bytes(n as nat, 4));
    }
    encode_bytes(buf, amt, &src);
}

/// Writes a signed number in four bytes, in two's complement.
pub fn encode_i32(buf: &mut &mut [u8], amt: &mut usize, n: i32)
    requires
        old(buf)@.len() >= 4,
        *old(amt) + 4 <= usize::MAX,
    ensures
        *final(amt) == *old(amt) + 4,
        final(buf)@ == old(buf)@.skip(4),
        final(*old(buf))@ == be_bytes(twos_complement(n), 4) + final(*final(buf))@,
{
    let bits: u32 = if n < 0 {
        (n as i64 + 0x1_0000_0000) as u32
    } else {
        n as u32
    };
    encode_u32(buf, amt, bits);
}

/// Writes a double in eight bytes.
pub fn encode_f64(buf: &mut &mut [u8], amt: &mut usize, n: F64Bits)
    requires
        old(buf)@.len() >= 8,
        *old(amt) + 8 <= usize::MAX,
    ensures
        *final(amt) == *old(amt) + 8,
        final(buf)@ == old(buf)@.skip(8),
        final(*old(buf))@ == be_bytes(n.0 as nat, 8) + final(*final(buf))@,
{
    let ghost before = *old(buf);
    let ghost high = be_bytes(n.0 as nat / 0x1_0000_0000, 4);
    let ghost low = be_bytes(n.0 as nat % 0x1_0000_0000, 4);
    proof {
        lemma_be_capacities();
        lemma_be_bytes_join(n.0 as nat / 0x1_0000_0000, 4, n.0 as nat % 0x1_0000_0000, 4);
        assert(be_bytes(n.0 as nat, 8) == high + low);
        lemma_be_bytes_len(n.0 as nat / 0x1_0000_0000, 4);
    }
    encode_u32(buf, amt, (n.0 / 0x1_0000_0000) as u32);
    encode_u32(buf, amt, (n.0 % 0x1_0000_0000) as u32);
    assert(buf@ =~= old(buf)@.skip(8));
    assert(final(before)@ =~= (high + low) + final(*buf)@);
}

/// Four bytes read as a number are its digits in base 256, the most significant first, and so
/// are eight.
pub proof fn law_read_bytes_are_digits(four: Seq<u8>, eight: Seq<u8>)
    requires
        four.len() == 4,
        eight.len() == 8,
    ensures
        be_value(four) == four[0] * 0x100_0000 + four[1] * 0x1_0000 + four[2] * 0x100 + four[3],
        be_value(eight) == eight[0] * 0x100_0000_0000_0000 + eight[1] * 0x1_0000_0000_0000
            + eight[2] * 0x100_0000_0000 + eight[3] * 0x1_0000_0000 + eight[4] * 0x100_0000
            + eight[5] * 0x1_0000 + eight[6] * 0x100 + eight[7],
{
    lemma_be_value_4(four);
    lemma_be_value_halves(eight);
    lemma_be_value_4(eight.take(4));
    lemma_be_value_4(eight.skip(4));
}

/// The four bytes of a number are its digits in base 256, the most significant first, and so
/// are the eight bytes of a longer one.
pub proof fn law_written_bytes_are_digits(n: u32, long: u64)
    ensures
        be_bytes(n as nat, 4).len() == 4,
        be_bytes(long as nat, 8).len() == 8,
        ({
            let b = be_bytes(n as nat, 4);
            n == b[0] * 0x100_0000 + b[1] * 0x1_0000 + b[2] * 0x100 + b[3]
        }),
        ({
            let b = be_bytes(long as nat, 8);
            long == b[0] * 0x100_0000_0000_0000 + b[1] * 0x1_0000_0000_0000 + b[2]
                * 0x100_0000_0000 + b[3] * 0x1_0000_0000 + b[4] * 0x100_0000 + b[5] * 0x1_0000
                + b[6] * 0x100 + b[7]
        }),
{
    lemma_be_capacities();
    lemma_be_bytes_len(n as nat, 4);
    lemma_be_bytes_len(long as nat, 8);
    lemma_be_round_trip(n as nat, 4);
    lemma_be_round_trip(long as nat, 8);
    law_read_bytes_are_digits(be_bytes(n as nat, 4), be_bytes(long as nat, 8));
}

/// A signed number and the unsigned one that stands for it differ by a multiple of two to the
/// thirty-second, whichever of them is given.
pub proof fn law_twos_complement_is_congruent(signed: i32, unsigned: u32)
    ensures
        0 <= twos_complement(signed) < 0x1_0000_0000,
        (twos_complement(signed) - signed) % 0x1_0000_0000 == 0,
        (unsigned - from_twos_complement(unsigned as nat)) % 0x1_0000_0000 == 0,
{
}

} // verus!
