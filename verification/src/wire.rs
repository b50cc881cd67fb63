//! Big-endian numbers as they stand in frames.
use vstd::prelude::*;

verus! {

/// `n` as `width` bytes, most significant first.
pub open spec fn be_bytes(n: nat, width: nat) -> Seq<u8>
    decreases width,
{
    if width == 0 {
        Seq::empty()
    } else {
        be_bytes(n / 256, (width - 1) as nat).push((n % 256) as u8)
    }
}

/// The number that bytes denote, most significant first.
pub open spec fn be_value(bytes: Seq<u8>) -> nat
    decreases bytes.len(),
{
    if bytes.len() == 0 {
        0
    } else {
        be_value(bytes.drop_last()) * 256 + bytes.last() as nat
    }
}

/// One more than the largest number of `width` bytes.
pub open spec fn be_bound(width: nat) -> nat
    decreases width,
{
    if width == 0 {
        1
    } else {
        be_bound((width - 1) as nat) * 256
    }
}

/// A number is written with as many bytes as were asked for.
pub proof fn be_bytes_len(n: nat, width: nat)
    ensures
        be_bytes(n, width).len() == width,
    decreases width,
{
    if width > 0 {
        be_bytes_len(n / 256, (width - 1) as nat);
    }
}

/// A number that fits is read back as it was written.
pub proof fn be_value_of_bytes(n: nat, width: nat)
    requires
        n < be_bound(width),
    ensures
        be_value(be_bytes(n, width)) == n,
    decreases width,
{
    if width > 0 {
        be_value_of_bytes(n / 256, (width - 1) as nat);
        assert(be_bytes(n, width).drop_last() =~= be_bytes(n / 256, (width - 1) as nat));
    }
}

/// Bytes denote a number that fits, and writing it gives the bytes back.
pub proof fn be_bytes_of_value(bytes: Seq<u8>)
    ensures
        be_value(bytes) < be_bound(bytes.len()),
        be_bytes(be_value(bytes), bytes.len()) == bytes,
    decreases bytes.len(),
{
    if bytes.len() > 0 {
        be_bytes_of_value(bytes.drop_last());
        assert(be_value(bytes) / 256 == be_value(bytes.drop_last()));
        assert(be_value(bytes) % 256 == bytes.last() as nat);
        assert(bytes.drop_last().push(bytes.last()) =~= bytes);
    } else {
        assert(be_bytes(0, 0) =~= bytes);
    }
}

/// The bounds of the two widths that frames use.
pub proof fn be_bounds()
    ensures
        be_bound(4) == 0x1_0000_0000,
        be_bound(8) == 0x1_0000_0000_0000_0000,
{
    reveal_with_fuel(be_bound, 9);
}

/// Writes `n` with `width` bytes.
fn put_be(n: u64, width: usize) -> (r: Vec<u8>)
    ensures
        r@ == be_bytes(n as nat, width as nat),
    decreases width,
{
    if width == 0 {
        Vec::new()
    } else {
        let mut r = put_be(n / 256, width - 1);
        r.push((n % 256) as u8);
        r
    }
}

/// The eight bytes of an absolute position.
pub fn u64_bytes(n: u64) -> (r: Vec<u8>)
    ensures
        r@ == be_bytes(n as nat, 8),
{
    put_be(n, 8)
}

/// The four bytes of a payload length.
pub fn u32_bytes(n: u32) -> (r: Vec<u8>)
    ensures
        r@ == be_bytes(n as nat, 4),
{
    put_be(n as u64, 4)
}

/// Reads a number of at most eight bytes.
pub fn be_number(bytes: &[u8]) -> (r: u64)
    requires
        bytes@.len() <= 8,
    ensures
        r == be_value(bytes@),
        r < be_bound(bytes@.len()),
{
    let mut value: u64 = 0;
    let mut i: usize = 0;
    while i < bytes.len()
        invariant
            i <= bytes@.len() <= 8,
            value == be_value(bytes@.take(i as int)),
            value < be_bound(i as nat),
        decreases bytes@.len() - i,
    {
        proof {
            let next = bytes@.take(i + 1);
            assert(next.drop_last() =~= bytes@.take(i as int));
            assert(next.last() == bytes@[i as int]);
            assert(be_bound((i + 1) as nat) == be_bound(i as nat) * 256);
            assert(be_bound((i + 1) as nat) <= 0x1_0000_0000_0000_0000) by {
                reveal_with_fuel(be_bound, 9);
            }
        }
        value = value * 256 + bytes[i] as u64;
        i += 1;
    }
    assert(bytes@.take(bytes@.len() as int) =~= bytes@);
    value
}

/// Numbers are written with their most significant byte first, in a fixed number of
/// bytes, and are read back.
pub proof fn numbers_are_written_from_the_top(
    n: u64,
    small: u32,
    r: Vec<u8>,
    s: Vec<u8>,
    bytes: &[u8],
    back: u64,
)
    requires
        call_ensures(u64_bytes, (n,), r),
        call_ensures(u32_bytes, (small,), s),
        bytes@ == r@,
        call_ensures(be_number, (bytes,), back),
    ensures
        r@.len() == 8,
        r@[7] == n % 256,
        r@[6] == n / 256 % 256,
        s@.len() == 4,
        s@[3] == small % 256,
        s@[2] == small / 256 % 256,
        s@[1] == small / 65536 % 256,
        s@[0] == small / 16777216,
        back == n,
{
    be_bytes_len(n as nat, 8);
    be_bytes_len(small as nat, 4);
    reveal_with_fuel(be_bytes, 9);
    be_bounds();
    be_value_of_bytes(n as nat, 8);
}

/// A further byte makes a number 256 times as large and adds its own value.
pub proof fn bytes_count_by_their_place(
    shorter: &[u8],
    longer: &[u8],
    byte: u8,
    r: u64,
    s: u64,
)
    requires
        shorter@.len() < 8,
        longer@ == shorter@.push(byte),
        call_ensures(be_number, (shorter,), r),
        call_ensures(be_number, (longer,), s),
    ensures
        s == r * 256 + byte,
        shorter@.len() == 0 ==> r == 0,
{
    assert(longer@.drop_last() =~= shorter@);
}

} // verus!
