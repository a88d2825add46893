//! The fixed-capacity, null-padded name field of a note.
use vstd::prelude::*;
use vstd::string::StringSliceAdditionalSpecFns;

verus! {

/// The name field of capacity `cap` that holds `s`: at most `cap - 1` bytes
/// of `s` are kept, every other byte is zero. A name of `cap` bytes or more
/// is cut short without notice.
pub open spec fn encoded_name(s: Seq<u8>, cap: nat) -> Seq<u8> {
    Seq::new(cap, |i: int| if i + 1 < cap && i < s.len() { s[i] } else { 0u8 })
}

/// `r` is what a reader of the null-terminated string in `buf` gets: the bytes
/// of `buf` before its first zero byte, or all of `buf` if it holds none.
pub open spec fn is_c_str_of(r: Seq<u8>, buf: Seq<u8>) -> bool {
    &&& r.len() <= buf.len()
    &&& r == buf.take(r.len() as int)
    &&& forall|i: int| 0 <= i < r.len() ==> r[i] != 0u8
    &&& (r.len() == buf.len() || buf[r.len() as int] == 0u8)
}

/// A byte string without zero bytes.
pub open spec fn nul_free(s: Seq<u8>) -> bool {
    forall|i: int| 0 <= i < s.len() ==> s[i] != 0u8
}

/// A name shorter than its field is kept whole and followed by zero bytes
/// only; read back as a null-terminated string, it is the name itself when
/// it holds no zero byte of its own.
pub proof fn lemma_short_name_kept(s: Seq<u8>, cap: nat)
    requires
        s.len() < cap,
    ensures
        encoded_name(s, cap) == s + Seq::new((cap - s.len()) as nat, |i: int| 0u8),
        nul_free(s) ==> is_c_str_of(s, encoded_name(s, cap)),
{
    let e = encoded_name(s, cap);
    assert(e =~= s + Seq::new((cap - s.len()) as nat, |i: int| 0u8));
    assert(e.take(s.len() as int) =~= s);
}

/// A name of at least as many bytes as its field is cut short: the field
/// holds its first `cap - 1` bytes and a zero byte.
pub proof fn lemma_long_name_cut(s: Seq<u8>, cap: nat)
    requires
        1 <= cap <= s.len(),
    ensures
        encoded_name(s, cap) == s.take(cap - 1).push(0u8),
        encoded_name(s, cap) == s.take(cap as int) <==> s[cap - 1] == 0u8,
{
    let e = encoded_name(s, cap);
    assert(e =~= s.take(cap - 1).push(0u8));
    if s[cap - 1] == 0u8 {
        assert(e =~= s.take(cap as int));
    } else {
        assert(e[cap - 1] != s.take(cap as int)[cap - 1]);
    }
}

/// Fills a name field of capacity `N` from `name`: the first `N - 1` bytes at
/// most are copied and the rest of the field is zero.
pub fn encode_name<const N: usize>(name: &str) -> (buf: [u8; N])
    ensures
        buf@ == encoded_name(name.spec_bytes(), N as nat),
{
    let bytes = name.as_bytes();
    let mut buf: [u8; N] = [0u8; N];
    let mut i: usize = 0;
    while i < N && i + 1 < N && i < bytes.len()
        invariant
            bytes@ == name.spec_bytes(),
            i <= N,
            forall|j: int| 0 <= j < i ==> buf@[j] == encoded_name(bytes@, N as nat)[j],
            forall|j: int| i <= j < N ==> buf@[j] == 0u8,
        decreases N - i,
    {
        buf[i] = bytes[i];
        i = i + 1;
    }
    assert(buf@ =~= encoded_name(bytes@, N as nat));
    buf
}

/// Whether a name field of capacity `cap` holds all of `name` and a
/// terminating zero byte, so that `encode_name` cuts nothing off.
pub fn name_fits(name: &str, cap: usize) -> (r: bool)
    ensures
        r == (name.spec_bytes().len() < cap),
{
    name.as_bytes().len() < cap
}

/// The bytes of `buf` before its first zero byte: the name that a reader of
/// the null-terminated string in `buf` sees.
pub fn c_str_bytes(buf: &[u8]) -> (r: Vec<u8>)
    ensures
        is_c_str_of(r@, buf@),
{
    let mut r: Vec<u8> = Vec::new();
    let mut i: usize = 0;
    while i < buf.len() && buf[i] != 0
        invariant
            i <= buf.len(),
            r@ == buf@.take(i as int),
            forall|j: int| 0 <= j < i ==> buf@[j] != 0u8,
        decreases buf.len() - i,
    {
        r.push(buf[i]);
        i = i + 1;
        assert(r@ =~= buf@.take(i as int));
    }
    r
}

} // verus!
