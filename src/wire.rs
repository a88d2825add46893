//! The bytes of a note as a note section holds them, and reading them back.
use vstd::layout::{layout_of_primitives, size_of};
use vstd::prelude::*;

use crate::name::{encoded_name, is_c_str_of, lemma_short_name_kept, nul_free};
use crate::note::{built_note, Note, NoteView};
use crate::order::{in_order, lemma_u32_round_trip, push_u16, push_u32, push_u64, read_u32, u16_le, u32_le, u32_of, u64_le, ByteOrder};

verus! {

/// A descriptor whose bytes can be written out.
pub trait Descriptor: Sized {
    /// The bytes of the descriptor in memory, integers in order `o`.
    spec fn spec_desc_bytes(&self, o: ByteOrder) -> Seq<u8>;

    /// A descriptor has as many bytes as its type's size.
    proof fn lemma_desc_len(&self, o: ByteOrder)
        ensures
            self.spec_desc_bytes(o).len() == size_of::<Self>(),
    ;

    /// The bytes of the descriptor, integers in order `o`.
    fn desc_bytes(&self, o: ByteOrder) -> (r: Vec<u8>)
        ensures
            r@ == self.spec_desc_bytes(o),
    ;
}

impl Descriptor for u8 {
    open spec fn spec_desc_bytes(&self, o: ByteOrder) -> Seq<u8> {
        seq![*self]
    }

    proof fn lemma_desc_len(&self, o: ByteOrder) {
        broadcast use layout_of_primitives;
    }

    fn desc_bytes(&self, o: ByteOrder) -> (r: Vec<u8>) {
        let mut r: Vec<u8> = Vec::new();
        r.push(*self);
        assert(r@ =~= seq![*self]);
        r
    }
}

impl Descriptor for u16 {
    open spec fn spec_desc_bytes(&self, o: ByteOrder) -> Seq<u8> {
        in_order(u16_le(*self), o)
    }

    proof fn lemma_desc_len(&self, o: ByteOrder) {
        broadcast use layout_of_primitives;
    }

    fn desc_bytes(&self, o: ByteOrder) -> (r: Vec<u8>) {
        let mut r: Vec<u8> = Vec::new();
        push_u16(&mut r, *self, o);
        assert(r@ =~= in_order(u16_le(*self), o));
        r
    }
}

impl Descriptor for u32 {
    open spec fn spec_desc_bytes(&self, o: ByteOrder) -> Seq<u8> {
        in_order(u32_le(*self), o)
    }

    proof fn lemma_desc_len(&self, o: ByteOrder) {
        broadcast use layout_of_primitives;
    }

    fn desc_bytes(&self, o: ByteOrder) -> (r: Vec<u8>) {
        let mut r: Vec<u8> = Vec::new();
        push_u32(&mut r, *self, o);
        assert(r@ =~= in_order(u32_le(*self), o));
        r
    }
}

impl Descriptor for u64 {
    open spec fn spec_desc_bytes(&self, o: ByteOrder) -> Seq<u8> {
        in_order(u64_le(*self), o)
    }

    proof fn lemma_desc_len(&self, o: ByteOrder) {
        broadcast use layout_of_primitives;
    }

    fn desc_bytes(&self, o: ByteOrder) -> (r: Vec<u8>) {
        let mut r: Vec<u8> = Vec::new();
        push_u64(&mut r, *self, o);
        assert(r@ =~= in_order(u64_le(*self), o));
        r
    }
}

/// `n` zero bytes.
pub open spec fn zeros(n: nat) -> Seq<u8> {
    Seq::new(n, |i: int| 0u8)
}

/// The zero bytes that follow `n` bytes to reach a multiple of four.
pub open spec fn pad4(n: nat) -> nat {
    ((4 - n % 4) % 4) as nat
}

/// Where the descriptor starts in a note whose name field has `name_size`
/// bytes: after the header of three words and the name field, padded to a
/// multiple of four.
pub open spec fn desc_offset(name_size: nat) -> nat {
    12 + name_size + pad4(name_size)
}

/// The bytes of the note `v` in order `o`: the words `name_size`,
/// `desc_size` and `type_tag`, the name field and the descriptor, each of
/// the last two followed by zero bytes up to a multiple of four.
pub open spec fn note_bytes<T: Descriptor>(v: NoteView<T>, o: ByteOrder) -> Seq<u8> {
    let desc = v.desc.spec_desc_bytes(o);
    in_order(u32_le(v.name_size), o) + in_order(u32_le(v.desc_size), o) + in_order(u32_le(v.type_tag), o)
        + v.name + zeros(pad4(v.name.len())) + desc + zeros(pad4(desc.len()))
}

/// The word at word index `i` of `b`, in order `o`.
pub open spec fn word_at(b: Seq<u8>, i: int, o: ByteOrder) -> u32 {
    u32_of(b.subrange(4 * i, 4 * i + 4), o)
}

/// The note at the start of `b`, its descriptor as bytes; none where `b` is
/// too short for the header or for the name field and descriptor that the
/// header announces. Bytes after the descriptor are not read.
pub open spec fn note_at(b: Seq<u8>, o: ByteOrder) -> Option<NoteView<Seq<u8>>> {
    if b.len() < 12 {
        None
    } else {
        let ns = word_at(b, 0, o);
        let ds = word_at(b, 1, o);
        let at = desc_offset(ns as nat);
        if at + ds > b.len() {
            None
        } else {
            Some(
                NoteView {
                    name_size: ns,
                    desc_size: ds,
                    type_tag: word_at(b, 2, o),
                    name: b.subrange(12, 12 + ns),
                    desc: b.subrange(at as int, at + ds),
                },
            )
        }
    }
}

/// A note read from bytes, its descriptor as bytes.
pub struct ParsedNote {
    /// Bytes in the name field.
    pub name_size: u32,
    /// Bytes in the descriptor.
    pub desc_size: u32,
    /// The note's type.
    pub type_tag: u32,
    /// The name field.
    pub name: Vec<u8>,
    /// The descriptor.
    pub desc: Vec<u8>,
}

impl View for ParsedNote {
    type V = NoteView<Seq<u8>>;

    open spec fn view(&self) -> NoteView<Seq<u8>> {
        NoteView {
            name_size: self.name_size,
            desc_size: self.desc_size,
            type_tag: self.type_tag,
            name: self.name@,
            desc: self.desc@,
        }
    }
}

/// Appends `b[from..to]` to `out`.
fn push_range(out: &mut Vec<u8>, b: &[u8], from: usize, to: usize)
    requires
        from <= to <= b@.len(),
    ensures
        final(out)@ == old(out)@ + b@.subrange(from as int, to as int),
{
    let ghost start = out@;
    let mut i: usize = from;
    while i < to
        invariant
            from <= i <= to <= b@.len(),
            out@ == start + b@.subrange(from as int, i as int),
        decreases to - i,
    {
        out.push(b[i]);
        i = i + 1;
        assert(out@ =~= start + b@.subrange(from as int, i as int));
    }
}

/// Appends `n` zero bytes to `out`.
fn push_zeros(out: &mut Vec<u8>, n: usize)
    ensures
        final(out)@ == old(out)@ + zeros(n as nat),
{
    let ghost start = out@;
    let mut i: usize = 0;
    while i < n
        invariant
            i <= n,
            out@ == start + zeros(i as nat),
        decreases n - i,
    {
        out.push(0);
        i = i + 1;
        assert(out@ =~= start + zeros(i as nat));
    }
}

/// Reads the note at the start of `b`, with its header words in order `o`.
pub fn parse_note(b: &[u8], o: ByteOrder) -> (r: Option<ParsedNote>)
    ensures
        match r {
            None => note_at(b@, o) is None,
            Some(p) => note_at(b@, o) == Some(p@),
        },
{
    let len = b.len();
    if len < 12 {
        return None;
    }
    let ns = read_u32(b, 0, o);
    let ds = read_u32(b, 4, o);
    let kind = read_u32(b, 8, o);
    let pad: u64 = (4 - (ns as u64) % 4) % 4;
    let at: u64 = 12 + ns as u64 + pad;
    if at + ds as u64 > len as u64 {
        return None;
    }
    let at = at as usize;
    let mut name: Vec<u8> = Vec::new();
    push_range(&mut name, b, 12, 12 + ns as usize);
    let mut desc: Vec<u8> = Vec::new();
    push_range(&mut desc, b, at, at + ds as usize);
    assert(name@ =~= b@.subrange(12, 12 + ns));
    assert(desc@ =~= b@.subrange(at as int, at + ds));
    Some(ParsedNote { name_size: ns, desc_size: ds, type_tag: kind, name, desc })
}

/// What a reader gets back from the bytes of the note `v`: its header words,
/// its name field, and its descriptor as bytes in order `o`.
pub open spec fn read_back<T: Descriptor>(v: NoteView<T>, o: ByteOrder) -> NoteView<Seq<u8>> {
    NoteView {
        name_size: v.name_size,
        desc_size: v.desc_size,
        type_tag: v.type_tag,
        name: v.name,
        desc: v.desc.spec_desc_bytes(o),
    }
}

/// The bytes of a note built from `name`, `type_tag` and `desc`, whatever
/// follows them, read back as the note's header words, its name field and
/// the descriptor's bytes; they make a multiple of four bytes. The name read
/// up to its first zero byte is `name` when the field holds it whole and it
/// has no zero byte.
pub proof fn lemma_round_trip<T: Descriptor>(
    name: Seq<u8>,
    cap: nat,
    type_tag: u32,
    desc: T,
    rest: Seq<u8>,
    o: ByteOrder,
)
    requires
        cap <= u32::MAX,
        size_of::<T>() <= u32::MAX,
    ensures
        note_at(note_bytes(built_note(name, cap, type_tag, desc), o) + rest, o) == Some(
            read_back(built_note(name, cap, type_tag, desc), o),
        ),
        note_bytes(built_note(name, cap, type_tag, desc), o).len() == desc_offset(cap)
            + size_of::<T>() + pad4(size_of::<T>()),
        note_bytes(built_note(name, cap, type_tag, desc), o).len() % 4 == 0,
        name.len() < cap && nul_free(name) ==> is_c_str_of(name, encoded_name(name, cap)),
{
    let v = built_note(name, cap, type_tag, desc);
    let d = desc.spec_desc_bytes(o);
    desc.lemma_desc_len(o);
    let h0 = in_order(u32_le(v.name_size), o);
    let h1 = in_order(u32_le(v.desc_size), o);
    let h2 = in_order(u32_le(v.type_tag), o);
    lemma_u32_round_trip(v.name_size, o);
    lemma_u32_round_trip(v.desc_size, o);
    lemma_u32_round_trip(v.type_tag, o);
    let z1 = zeros(pad4(cap));
    let z2 = zeros(pad4(d.len()));
    let b = note_bytes(v, o) + rest;
    assert(note_bytes(v, o) =~= h0 + h1 + h2 + v.name + z1 + d + z2);
    assert(b =~= h0 + h1 + h2 + v.name + z1 + d + z2 + rest);
    assert(b.subrange(0, 4) =~= h0);
    assert(b.subrange(4, 8) =~= h1);
    assert(b.subrange(8, 12) =~= h2);
    assert(b.subrange(12, 12 + cap as int) =~= v.name);
    let at = desc_offset(cap);
    assert(b.subrange(at as int, (at + d.len()) as int) =~= d);
    if name.len() < cap {
        lemma_short_name_kept(name, cap);
    }
}

/// Notes written one after the other are each read back on their own: the
/// first starts the bytes, the second starts where the first ends, and each
/// starts at a multiple of four bytes.
pub proof fn lemma_notes_in_sequence<A: Descriptor, B: Descriptor>(
    name_a: Seq<u8>,
    cap_a: nat,
    type_tag_a: u32,
    desc_a: A,
    name_b: Seq<u8>,
    cap_b: nat,
    type_tag_b: u32,
    desc_b: B,
    o: ByteOrder,
)
    requires
        cap_a <= u32::MAX,
        cap_b <= u32::MAX,
        size_of::<A>() <= u32::MAX,
        size_of::<B>() <= u32::MAX,
    ensures
        ({
            let a = built_note(name_a, cap_a, type_tag_a, desc_a);
            let b = built_note(name_b, cap_b, type_tag_b, desc_b);
            let s = note_bytes(a, o) + note_bytes(b, o);
            &&& note_bytes(a, o).len() % 4 == 0
            &&& note_at(s, o) == Some(read_back(a, o))
            &&& note_at(s.skip(note_bytes(a, o).len() as int), o) == Some(read_back(b, o))
        }),
{
    let a = built_note(name_a, cap_a, type_tag_a, desc_a);
    let b = built_note(name_b, cap_b, type_tag_b, desc_b);
    let s = note_bytes(a, o) + note_bytes(b, o);
    lemma_round_trip(name_a, cap_a, type_tag_a, desc_a, note_bytes(b, o), o);
    lemma_round_trip(name_b, cap_b, type_tag_b, desc_b, Seq::empty(), o);
    assert(s.skip(note_bytes(a, o).len() as int) =~= note_bytes(b, o) + Seq::<u8>::empty());
}

impl<T: Descriptor, const N: usize> Note<T, N> {
    /// The bytes of the note, integers in order `o`, as an ELF reader finds
    /// them in a note section. The descriptor starts at the next multiple of
    /// four bytes after the name field, whatever the alignment of `T`.
    pub fn to_bytes(&self, o: ByteOrder) -> (r: Vec<u8>)
        ensures
            r@ == note_bytes(self@, o),
    {
        let mut out: Vec<u8> = Vec::new();
        push_u32(&mut out, self.name_size(), o);
        push_u32(&mut out, self.desc_size(), o);
        push_u32(&mut out, self.type_tag(), o);
        let name = self.name();
        push_range(&mut out, name.as_slice(), 0, N);
        push_zeros(&mut out, (4 - N % 4) % 4);
        let desc = self.desc().desc_bytes(o);
        let dlen = desc.len();
        push_range(&mut out, desc.as_slice(), 0, dlen);
        push_zeros(&mut out, (4 - dlen % 4) % 4);
        assert(name@.subrange(0, N as int) =~= name@);
        assert(desc@.subrange(0, dlen as int) =~= desc@);
        out
    }
}

} // verus!
