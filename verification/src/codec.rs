use crate::pubkey::Pubkey;
use vstd::bytes::{
    spec_u32_from_le_bytes, spec_u32_to_le_bytes, spec_u64_from_le_bytes, spec_u64_to_le_bytes,
    u32_from_le_bytes, u32_to_le_bytes, u64_from_le_bytes, u64_to_le_bytes,
};
use vstd::prelude::*;
use vstd::slice::slice_subrange;

verus! {

/// A value with a byte encoding in the style the account fixtures use:
/// fields laid out in order, integers little endian, no framing.
/// Parsing reads a value off the front of a byte string and ignores
/// what follows.
pub trait BorshCodec: Sized {
    /// The encoding of this value.
    spec fn spec_bytes(&self) -> Seq<u8>;

    /// Whether a value lies at the front of `data`.
    spec fn spec_parses(data: Seq<u8>) -> bool;

    /// Appends the encoding to `dst`.
    fn write_bytes(&self, dst: &mut Vec<u8>)
        ensures
            final(dst)@ == old(dst)@ + self.spec_bytes(),
    ;

    /// Reads a value from the front of `data`; the result is the one value
    /// whose encoding is a prefix of `data`.
    fn parse(data: &[u8]) -> (r: Option<Self>)
        ensures
            r is Some <==> Self::spec_parses(data@),
            r matches Some(v) ==> v.spec_bytes().len() <= data@.len() && v.spec_bytes()
                == data@.subrange(0, v.spec_bytes().len() as int),
    ;

    /// An encoding parses, whatever follows it.
    proof fn lemma_encoding_parses(v: Self, extra: Seq<u8>)
        ensures
            Self::spec_parses(v.spec_bytes() + extra),
    ;

    /// No encoding is a proper prefix of another: the codec is unambiguous.
    proof fn lemma_prefix_injective(a: Self, b: Self)
        requires
            a.spec_bytes().len() <= b.spec_bytes().len(),
            a.spec_bytes() == b.spec_bytes().subrange(0, a.spec_bytes().len() as int),
        ensures
            a == b,
    ;
}

/// Round trip: a value parsed back out of its own encoding, with anything
/// at all after it, is the original value.
pub proof fn lemma_borsh_round_trip<T: BorshCodec>(v: T, w: T, extra: Seq<u8>)
    requires
        w.spec_bytes().len() <= (v.spec_bytes() + extra).len(),
        w.spec_bytes() == (v.spec_bytes() + extra).subrange(0, w.spec_bytes().len() as int),
    ensures
        w == v,
{
    let s = v.spec_bytes() + extra;
    let lv = v.spec_bytes().len() as int;
    let lw = w.spec_bytes().len() as int;
    assert(v.spec_bytes() =~= s.subrange(0, lv));
    if lw <= lv {
        assert(w.spec_bytes() =~= v.spec_bytes().subrange(0, lw));
        T::lemma_prefix_injective(w, v);
    } else {
        assert(v.spec_bytes() =~= w.spec_bytes().subrange(0, lv));
        T::lemma_prefix_injective(v, w);
    }
}

/// At most one value parses off the front of a byte string.
pub proof fn lemma_parse_unique<T: BorshCodec>(data: Seq<u8>, a: T, b: T)
    requires
        a.spec_bytes().len() <= data.len(),
        a.spec_bytes() == data.subrange(0, a.spec_bytes().len() as int),
        b.spec_bytes().len() <= data.len(),
        b.spec_bytes() == data.subrange(0, b.spec_bytes().len() as int),
    ensures
        a == b,
{
    let la = a.spec_bytes().len() as int;
    let lb = b.spec_bytes().len() as int;
    if la <= lb {
        assert(a.spec_bytes() =~= b.spec_bytes().subrange(0, la));
        T::lemma_prefix_injective(a, b);
    } else {
        assert(b.spec_bytes() =~= a.spec_bytes().subrange(0, lb));
        T::lemma_prefix_injective(b, a);
    }
}

/// Serializes a value into a fresh buffer.
pub fn encode_to_vec<T: BorshCodec>(v: &T) -> (r: Vec<u8>)
    ensures
        r@ == v.spec_bytes(),
{
    let mut out: Vec<u8> = Vec::new();
    v.write_bytes(&mut out);
    proof {
        assert(Seq::<u8>::empty() + v.spec_bytes() =~= v.spec_bytes());
    }
    out
}

/// A value with a fixed-size byte layout, as the token accounts use.
/// Unpacking accepts a buffer of exactly the packed size.
pub trait Pack: Sized {
    /// The size of the layout.
    spec fn spec_packed_len() -> nat;

    fn get_packed_len() -> (r: usize)
        ensures
            r == Self::spec_packed_len(),
    ;

    /// The encoding of this value.
    spec fn spec_pack(&self) -> Seq<u8>;

    /// Whether `data` is the image of some value.
    spec fn spec_unpacks(data: Seq<u8>) -> bool;

    /// The encoding, in a fresh buffer.
    fn pack(&self) -> (r: Vec<u8>)
        ensures
            r@ == self.spec_pack(),
    ;

    /// Reads a value back out of a buffer; the result is the one value
    /// whose image `input` is.
    fn unpack_from_slice(input: &[u8]) -> (r: Option<Self>)
        ensures
            r is Some <==> Self::spec_unpacks(input@),
            r matches Some(v) ==> v.spec_pack() == input@,
    ;

    /// An encoding always has the packed size.
    proof fn lemma_pack_len(v: Self)
        ensures
            v.spec_pack().len() == Self::spec_packed_len(),
    ;

    /// An encoding unpacks.
    proof fn lemma_pack_unpacks(v: Self)
        ensures
            Self::spec_unpacks(v.spec_pack()),
    ;

    /// Distinct values have distinct images.
    proof fn lemma_pack_injective(a: Self, b: Self)
        requires
            a.spec_pack() == b.spec_pack(),
        ensures
            a == b,
    ;

    /// A buffer that unpacks is exactly some value's image.
    proof fn lemma_unpacks_is_image(data: Seq<u8>)
        requires
            Self::spec_unpacks(data),
        ensures
            exists|v: Self| (#[trigger] v.spec_pack()) == data,
    ;
}

/// Reads a `u64` at `offset`.
pub fn read_u64_le(data: &[u8], offset: usize) -> (r: u64)
    requires
        offset + 8 <= data@.len(),
    ensures
        r == spec_u64_from_le_bytes(data@.subrange(offset as int, offset + 8)),
{
    let n = data.len();
    let s = slice_subrange(data, offset, offset + 8);
    u64_from_le_bytes(s)
}

/// Reads a `u32` at `offset`.
pub fn read_u32_le(data: &[u8], offset: usize) -> (r: u32)
    requires
        offset + 4 <= data@.len(),
    ensures
        r == spec_u32_from_le_bytes(data@.subrange(offset as int, offset + 4)),
{
    let n = data.len();
    let s = slice_subrange(data, offset, offset + 4);
    u32_from_le_bytes(s)
}

/// Appends a `u64`, little endian.
pub fn write_u64_le(dst: &mut Vec<u8>, x: u64)
    ensures
        final(dst)@ == old(dst)@ + spec_u64_to_le_bytes(x),
{
    let bytes = u64_to_le_bytes(x);
    crate::pubkey::push_bytes(dst, bytes.as_slice());
}

/// Appends a `u32`, little endian.
pub fn write_u32_le(dst: &mut Vec<u8>, x: u32)
    ensures
        final(dst)@ == old(dst)@ + spec_u32_to_le_bytes(x),
{
    let bytes = u32_to_le_bytes(x);
    crate::pubkey::push_bytes(dst, bytes.as_slice());
}

/// Reads 32 bytes at `offset` as a pubkey.
pub fn read_pubkey(data: &[u8], offset: usize) -> (r: Pubkey)
    requires
        offset + 32 <= data@.len(),
    ensures
        r@ == data@.subrange(offset as int, offset + 32),
{
    let n = data.len();
    let s = slice_subrange(data, offset, offset + 32);
    Pubkey::new(s)
}

/// Appends the 32 bytes of a pubkey.
pub fn write_pubkey(dst: &mut Vec<u8>, pk: &Pubkey)
    ensures
        final(dst)@ == old(dst)@ + pk@,
{
    crate::pubkey::push_bytes(dst, pk.as_bytes().as_slice());
}

} // verus!
