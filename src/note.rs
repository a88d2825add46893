//! The note record: header, name field and descriptor.
use vstd::layout::size_of;
use vstd::prelude::*;
use vstd::string::StringSliceAdditionalSpecFns;

use crate::name::{
    encode_name, encoded_name, is_c_str_of, lemma_long_name_cut, lemma_short_name_kept, nul_free,
};

verus! {

/// What a note holds, as plain values.
pub struct NoteView<T> {
    /// Bytes in the name field, its terminating zero included.
    pub name_size: u32,
    /// Bytes in the descriptor.
    pub desc_size: u32,
    /// The note's type, as its producer numbers it.
    pub type_tag: u32,
    /// The name field.
    pub name: Seq<u8>,
    /// The descriptor.
    pub desc: T,
}

/// A note as the ELF specification defines it, with a name field of `N`
/// bytes and a descriptor of type `T`.
///
/// A note is built once and never changes. Its bytes, as an ELF reader
/// expects them in a note section, come from `Note::to_bytes`, which puts the
/// descriptor at the next multiple of four bytes from the note's start. A
/// descriptor type that needs a larger alignment gets no more than that: the
/// note section's own alignment has to supply the rest.
pub struct Note<T, const N: usize> {
    namesz: u32,
    descsz: u32,
    kind: u32,
    name: [u8; N],
    desc: T,
}

/// The note that `Note::new` builds from `name`, `type_tag` and `desc` with a
/// name field of `cap` bytes.
pub open spec fn built_note<T>(name: Seq<u8>, cap: nat, type_tag: u32, desc: T) -> NoteView<T> {
    NoteView {
        name_size: cap as u32,
        desc_size: size_of::<T>() as u32,
        type_tag,
        name: encoded_name(name, cap),
        desc,
    }
}

/// A note built from `name`, `type_tag` and `desc` with a name field of `cap`
/// bytes holds `cap` and the size of `T` as its sizes, `type_tag` and `desc`
/// unchanged, and a name field of `cap` bytes. A shorter name is kept whole
/// and followed by zero bytes only, and reads back as itself when it holds no
/// zero byte; a longer one keeps its first `cap - 1` bytes and a zero byte.
/// It depends on these values alone, not on any other note.
pub proof fn lemma_built_note<T>(name: Seq<u8>, cap: nat, type_tag: u32, desc: T)
    requires
        cap <= u32::MAX,
        size_of::<T>() <= u32::MAX,
    ensures
        built_note(name, cap, type_tag, desc).name_size as nat == cap,
        built_note(name, cap, type_tag, desc).desc_size as nat == size_of::<T>(),
        built_note(name, cap, type_tag, desc).type_tag == type_tag,
        built_note(name, cap, type_tag, desc).desc == desc,
        built_note(name, cap, type_tag, desc).name.len() == cap,
        name.len() < cap ==> built_note(name, cap, type_tag, desc).name == name + Seq::new(
            (cap - name.len()) as nat,
            |i: int| 0u8,
        ),
        name.len() < cap && nul_free(name) ==> is_c_str_of(name, built_note(name, cap, type_tag, desc).name),
        1 <= cap <= name.len() ==> built_note(name, cap, type_tag, desc).name == name.take(cap - 1).push(0u8),
{
    if name.len() < cap {
        lemma_short_name_kept(name, cap);
    } else if 1 <= cap {
        lemma_long_name_cut(name, cap);
    }
}

impl<T, const N: usize> View for Note<T, N> {
    type V = NoteView<T>;

    closed spec fn view(&self) -> NoteView<T> {
        NoteView {
            name_size: self.namesz,
            desc_size: self.descsz,
            type_tag: self.kind,
            name: self.name@,
            desc: self.desc,
        }
    }
}

impl<T, const N: usize> Note<T, N> {
    /// The sizes in the header are those of the name field and of `T`.
    #[verifier::type_invariant]
    spec fn sizes_match(&self) -> bool {
        &&& self.namesz as nat == N
        &&& self.descsz as nat == size_of::<T>()
    }

    /// Builds the note with name `name`, type `id` and descriptor `desc`.
    ///
    /// The name field keeps at most `N - 1` bytes of `name` and is zero
    /// elsewhere: a name of `N` bytes or more is cut short without notice
    /// (`name_fits` tells beforehand). A capacity of `name.len() + 1` keeps
    /// the whole name and its terminating zero.
    pub fn new(name: &str, id: u32, desc: T) -> (r: Self)
        requires
            N <= u32::MAX,
            size_of::<T>() <= u32::MAX,
        ensures
            r@ == built_note(name.spec_bytes(), N as nat, id, desc),
    {
        let buf: [u8; N] = encode_name(name);
        let descsz = core::mem::size_of::<T>();
        Note { namesz: N as u32, descsz: descsz as u32, kind: id, name: buf, desc }
    }

    /// Bytes in the name field, its terminating zero included: always `N`.
    pub fn name_size(&self) -> (r: u32)
        ensures
            r == self@.name_size,
            r as nat == N,
    {
        proof {
            use_type_invariant(self);
        }
        self.namesz
    }

    /// Bytes in the descriptor: always the size of `T`.
    pub fn desc_size(&self) -> (r: u32)
        ensures
            r == self@.desc_size,
            r as nat == size_of::<T>(),
    {
        proof {
            use_type_invariant(self);
        }
        self.descsz
    }

    /// The note's type.
    pub fn type_tag(&self) -> (r: u32)
        ensures
            r == self@.type_tag,
    {
        self.kind
    }

    /// The name field.
    pub fn name(&self) -> (r: &[u8; N])
        ensures
            r@ == self@.name,
    {
        &self.name
    }

    /// The descriptor.
    pub fn desc(&self) -> (r: &T)
        ensures
            *r == self@.desc,
    {
        &self.desc
    }
}

} // verus!
