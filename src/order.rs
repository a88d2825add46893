//! Byte order of the integers in a note, and their encoding as bytes.
use vstd::prelude::*;

verus! {

/// The order in which the bytes of an integer are written.
#[derive(Clone, Copy, Debug, PartialEq, Eq, Structural)]
pub enum ByteOrder {
    /// Least significant byte first.
    Little,
    /// Most significant byte first.
    Big,
}

/// The two bytes of `x`, least significant first.
pub open spec fn u16_le(x: u16) -> Seq<u8> {
    seq![(x & 0xff) as u8, (x >> 8u16) as u8]
}

/// The four bytes of `x`, least significant first.
pub open spec fn u32_le(x: u32) -> Seq<u8> {
    seq![(x & 0xff) as u8, ((x >> 8u32) & 0xff) as u8, ((x >> 16u32) & 0xff) as u8, (x >> 24u32) as u8]
}

/// The eight bytes of `x`, least significant first.
pub open spec fn u64_le(x: u64) -> Seq<u8> {
    u32_le((x & 0xffff_ffff) as u32) + u32_le((x >> 32u64) as u32)
}

/// `le`, the bytes of an integer least significant first, written in order `o`.
pub open spec fn in_order(le: Seq<u8>, o: ByteOrder) -> Seq<u8> {
    match o {
        ByteOrder::Little => le,
        ByteOrder::Big => le.reverse(),
    }
}

/// The integer whose four bytes, least significant first, are `b`.
pub open spec fn u32_of_le(b: Seq<u8>) -> u32 {
    (b[0] as u32) | ((b[1] as u32) << 8u32) | ((b[2] as u32) << 16u32) | ((b[3] as u32) << 24u32)
}

/// The integer that the four bytes `b` hold in order `o`.
pub open spec fn u32_of(b: Seq<u8>, o: ByteOrder) -> u32 {
    match o {
        ByteOrder::Little => u32_of_le(b),
        ByteOrder::Big => u32_of_le(b.reverse()),
    }
}

/// Reading back the four bytes of `x` in order `o` gives `x`.
pub proof fn lemma_u32_round_trip(x: u32, o: ByteOrder)
    ensures
        in_order(u32_le(x), o).len() == 4,
        u32_of(in_order(u32_le(x), o), o) == x,
{
    let le = u32_le(x);
    assert(le.reverse().reverse() =~= le);
    let b0 = (x & 0xff) as u8;
    let b1 = ((x >> 8u32) & 0xff) as u8;
    let b2 = ((x >> 16u32) & 0xff) as u8;
    let b3 = (x >> 24u32) as u8;
    assert((b0 as u32) | ((b1 as u32) << 8u32) | ((b2 as u32) << 16u32) | ((b3 as u32) << 24u32) == x)
        by (bit_vector)
        requires
            b0 == (x & 0xff) as u8,
            b1 == ((x >> 8u32) & 0xff) as u8,
            b2 == ((x >> 16u32) & 0xff) as u8,
            b3 == (x >> 24u32) as u8,
    ;
}

/// Appends `le`, the bytes of an integer least significant first, to `out`
/// in order `o`.
fn push_in_order(out: &mut Vec<u8>, le: &[u8], o: ByteOrder)
    ensures
        final(out)@ == old(out)@ + in_order(le@, o),
{
    let ghost start = out@;
    let n = le.len();
    let mut i: usize = 0;
    while i < n
        invariant
            n == le@.len(),
            i <= n,
            out@ == start + in_order(le@, o).take(i as int),
        decreases n - i,
    {
        let b = match o {
            ByteOrder::Little => le[i],
            ByteOrder::Big => le[n - 1 - i],
        };
        out.push(b);
        i = i + 1;
        assert(out@ =~= start + in_order(le@, o).take(i as int));
    }
    assert(in_order(le@, o).take(n as int) =~= in_order(le@, o));
}

/// Appends the four bytes of `x` to `out` in order `o`.
pub fn push_u32(out: &mut Vec<u8>, x: u32, o: ByteOrder)
    ensures
        final(out)@ == old(out)@ + in_order(u32_le(x), o),
{
    let le: [u8; 4] = [(x & 0xff) as u8, ((x >> 8u32) & 0xff) as u8, ((x >> 16u32) & 0xff) as u8, (x >> 24u32) as u8];
    assert(le@ =~= u32_le(x));
    push_in_order(out, le.as_slice(), o);
}

/// Appends the two bytes of `x` to `out` in order `o`.
pub fn push_u16(out: &mut Vec<u8>, x: u16, o: ByteOrder)
    ensures
        final(out)@ == old(out)@ + in_order(u16_le(x), o),
{
    let le: [u8; 2] = [(x & 0xff) as u8, (x >> 8u16) as u8];
    assert(le@ =~= u16_le(x));
    push_in_order(out, le.as_slice(), o);
}

/// Appends the eight bytes of `x` to `out` in order `o`.
pub fn push_u64(out: &mut Vec<u8>, x: u64, o: ByteOrder)
    ensures
        final(out)@ == old(out)@ + in_order(u64_le(x), o),
{
    let lo = (x & 0xffff_ffff) as u32;
    let hi = (x >> 32u64) as u32;
    let le: [u8; 8] = [
        (lo & 0xff) as u8, ((lo >> 8u32) & 0xff) as u8, ((lo >> 16u32) & 0xff) as u8, (lo >> 24u32) as u8,
        (hi & 0xff) as u8, ((hi >> 8u32) & 0xff) as u8, ((hi >> 16u32) & 0xff) as u8, (hi >> 24u32) as u8,
    ];
    assert(le@ =~= u64_le(x));
    push_in_order(out, le.as_slice(), o);
}

/// The integer that the four bytes of `b` from `at` on hold in order `o`.
pub fn read_u32(b: &[u8], at: usize, o: ByteOrder) -> (r: u32)
    requires
        at + 4 <= b@.len(),
    ensures
        r == u32_of(b@.subrange(at as int, at + 4), o),
{
    let len = b.len();
    assert(at + 4 <= len);
    let ghost w = b@.subrange(at as int, at + 4);
    let (b0, b1, b2, b3) = match o {
        ByteOrder::Little => (b[at], b[at + 1], b[at + 2], b[at + 3]),
        ByteOrder::Big => (b[at + 3], b[at + 2], b[at + 1], b[at]),
    };
    proof {
        let le = match o {
            ByteOrder::Little => w,
            ByteOrder::Big => w.reverse(),
        };
        assert(le[0] == b0 && le[1] == b1 && le[2] == b2 && le[3] == b3);
    }
    (b0 as u32) | ((b1 as u32) << 8u32) | ((b2 as u32) << 16u32) | ((b3 as u32) << 24u32)
}

/// Relies on `u32::to_ne_bytes`: the four bytes of `x` in the byte order of
/// the machine, which is one of the two orders.
#[verifier::external_body]
fn native_bytes_u32(x: u32) -> (r: [u8; 4])
    ensures
        r@ == in_order(u32_le(x), ByteOrder::Little) || r@ == in_order(u32_le(x), ByteOrder::Big),
{
    x.to_ne_bytes()
}

impl ByteOrder {
    /// The order that `b`, the four bytes of the integer 1 in one of the two
    /// orders, is written in.
    pub fn order_of_bytes_of_one(b: [u8; 4]) -> (r: ByteOrder)
        requires
            b@ == in_order(u32_le(1), ByteOrder::Little) || b@ == in_order(u32_le(1), ByteOrder::Big),
        ensures
            b@ == in_order(u32_le(1), r),
    {
        proof {
            assert((1u32 & 0xff) as u8 == 1u8) by (bit_vector);
            assert(((1u32 >> 8u32) & 0xff) as u8 == 0u8) by (bit_vector);
            assert(((1u32 >> 16u32) & 0xff) as u8 == 0u8) by (bit_vector);
            assert((1u32 >> 24u32) as u8 == 0u8) by (bit_vector);
            assert(u32_le(1).reverse()[0] == 0u8);
        }
        if b[0] == 1 {
            ByteOrder::Little
        } else {
            ByteOrder::Big
        }
    }

    /// The byte order of the machine that runs this code, as `u32::to_ne_bytes`
    /// shows it.
    pub fn native() -> ByteOrder {
        ByteOrder::order_of_bytes_of_one(native_bytes_u32(1))
    }
}

} // verus!
