use sha2::Digest;
use vstd::prelude::*;

verus! {

/// Number of bytes in a pubkey.
pub const PUBKEY_BYTES: usize = 32;

/// Maximum length of a derived-address seed.
pub const MAX_SEED_LEN: usize = 32;

/// Maximum number of seeds.
pub const MAX_SEEDS: usize = 16;

/// Domain marker mixed into every derived address: the ASCII bytes of
/// `ProgramDerivedAddress`.
pub const PDA_MARKER: [u8; 21] = [
    80, 114, 111, 103, 114, 97, 109, 68, 101, 114, 105, 118, 101, 100, 65, 100, 100, 114, 101,
    115, 115,
];

#[derive(Clone, Copy, Debug)]
pub struct Pubkey {
    bytes: [u8; 32],
}

impl View for Pubkey {
    type V = Seq<u8>;

    closed spec fn view(&self) -> Seq<u8> {
        self.bytes@
    }
}

impl PartialEq for Pubkey {
    fn eq(&self, other: &Pubkey) -> bool {
        bytes32_eq(&self.bytes, &other.bytes)
    }
}

impl Eq for Pubkey {

}

impl vstd::std_specs::cmp::PartialEqSpecImpl for Pubkey {
    open spec fn obeys_eq_spec() -> bool {
        true
    }

    open spec fn eq_spec(&self, other: &Pubkey) -> bool {
        self@ == other@
    }
}

fn bytes32_eq(a: &[u8; 32], b: &[u8; 32]) -> (r: bool)
    ensures
        r == (a@ == b@),
{
    let mut i: usize = 0;
    while i < 32
        invariant
            0 <= i <= 32,
            forall|j: int| 0 <= j < i ==> a@[j] == b@[j],
        decreases 32 - i,
    {
        if a[i] != b[i] {
            return false;
        }
        i += 1;
    }
    proof {
        assert(a@ =~= b@);
    }
    true
}

/// Copies a byte slice into a fresh vector.
pub fn clone_bytes(v: &[u8]) -> (r: Vec<u8>)
    ensures
        r@ == v@,
{
    let mut out: Vec<u8> = Vec::new();
    let n = v.len();
    let mut i: usize = 0;
    while i < n
        invariant
            n == v@.len(),
            0 <= i <= n,
            out@ == v@.subrange(0, i as int),
        decreases n - i,
    {
        out.push(v[i]);
        i += 1;
    }
    proof {
        assert(v@.subrange(0, n as int) =~= v@);
    }
    out
}

/// Appends a byte slice to a buffer.
pub fn push_bytes(dst: &mut Vec<u8>, src: &[u8])
    ensures
        final(dst)@ == old(dst)@ + src@,
{
    let n = src.len();
    let mut i: usize = 0;
    while i < n
        invariant
            n == src@.len(),
            0 <= i <= n,
            dst@ == old(dst)@ + src@.subrange(0, i as int),
        decreases n - i,
    {
        let b = src[i];
        dst.push(b);
        proof {
            assert(old(dst)@ + src@.subrange(0, i as int) + seq![src@[i as int]] =~= old(dst)@
                + src@.subrange(0, i + 1));
        }
        i += 1;
    }
    proof {
        assert(src@.subrange(0, n as int) =~= src@);
    }
}

/// A pubkey always views as exactly 32 bytes.
pub broadcast proof fn lemma_pubkey_len(pk: Pubkey)
    ensures
        #[trigger] pk@.len() == 32,
{
}

/// Two pubkeys with the same bytes are the same pubkey.
pub proof fn lemma_pubkey_view_injective(a: Pubkey, b: Pubkey)
    requires
        a@ == b@,
    ensures
        a == b,
{
    assert(a.bytes =~= b.bytes);
}

/// Longest base58 text a 32-byte id can render to.
pub const MAX_BASE58_LEN: usize = 44;

/// Failure of reading an id back from base58 text.
#[derive(Clone, Copy, Debug, PartialEq, Eq, Structural)]
pub enum ParsePubkeyError {
    WrongSize,
    Invalid,
}

/// Failure of address derivation.
#[derive(Clone, Copy, Debug, PartialEq, Eq, Structural)]
pub enum PubkeyError {
    MaxSeedLengthExceeded,
    InvalidSeeds,
    IllegalOwner,
}

/// The SHA-256 digest of a byte string.
pub uninterp spec fn sha256_of(input: Seq<u8>) -> Seq<u8>;

/// Whether 32 bytes decode to a point of the embedded elliptic curve.
pub uninterp spec fn is_curve_point(bytes: Seq<u8>) -> bool;

/// The base58 rendering of a byte string.
pub uninterp spec fn base58_of(bytes: Seq<u8>) -> Seq<char>;

/// Relies on sha2::Sha256: the digest is a pure function of the input bytes
/// and is 32 bytes long.
#[verifier::external_body]
fn sha256(input: &Vec<u8>) -> (r: Vec<u8>)
    ensures
        r@ == sha256_of(input@),
        r@.len() == 32,
{
    sha2::Sha256::digest(input.as_slice()).to_vec()
}

/// Relies on bs58::decode: a successful decode is the exact inverse of
/// the base58 rendering.
#[verifier::external_body]
fn base58_decode(s: &str) -> (r: Option<Vec<u8>>)
    ensures
        r matches Some(v) ==> base58_of(v@) == s@,
{
    bs58::decode(s).into_vec().ok()
}

/// Relies on curve25519_dalek::edwards::CompressedEdwardsY: whether decompression
/// succeeds is a pure function of the 32 input bytes.
#[verifier::external_body]
pub fn bytes_are_curve_point(bytes: &Vec<u8>) -> (r: bool)
    ensures
        r == is_curve_point(bytes@),
{
    match curve25519_dalek::edwards::CompressedEdwardsY::from_slice(bytes.as_slice()) {
        Ok(compressed) => compressed.decompress().is_some(),
        Err(_) => false,
    }
}

/// All the seeds laid end to end.
pub open spec fn spec_concat_seeds(seeds: Seq<Seq<u8>>) -> Seq<u8>
    decreases seeds.len(),
{
    if seeds.len() == 0 {
        Seq::empty()
    } else {
        spec_concat_seeds(seeds.drop_last()) + seeds.last()
    }
}

/// The bytes hashed for a derived address: seeds, then the program id,
/// then the domain marker.
pub open spec fn spec_pda_preimage(seeds: Seq<Seq<u8>>, program_id: Seq<u8>) -> Seq<u8> {
    spec_concat_seeds(seeds) + program_id + PDA_MARKER@
}

/// What `create_program_address` returns: the hash of seeds, program id and
/// domain marker, unless a seed is oversized or the hash lands on the curve.
pub open spec fn spec_create_program_address(seeds: Seq<Seq<u8>>, program_id: Seq<u8>) -> Result<
    Seq<u8>,
    PubkeyError,
> {
    if seeds.len() > MAX_SEEDS as int {
        Err(PubkeyError::MaxSeedLengthExceeded)
    } else if exists|i: int| 0 <= i < seeds.len() && #[trigger] seeds[i].len() > MAX_SEED_LEN as int {
        Err(PubkeyError::MaxSeedLengthExceeded)
    } else {
        let h = sha256_of(spec_pda_preimage(seeds, program_id));
        if is_curve_point(h) {
            Err(PubkeyError::InvalidSeeds)
        } else {
            Ok(h)
        }
    }
}

/// The viable derivation with the highest bump in `0..=bump`, if any.
pub open spec fn spec_find_from(seeds: Seq<Seq<u8>>, program_id: Seq<u8>, bump: int) -> Option<
    (Seq<u8>, u8),
>
    decreases bump + 1,
{
    if bump < 0 {
        None
    } else {
        match spec_create_program_address(seeds.push(seq![bump as u8]), program_id) {
            Ok(h) => Some((h, bump as u8)),
            Err(PubkeyError::InvalidSeeds) => spec_find_from(seeds, program_id, bump - 1),
            Err(_) => None,
        }
    }
}

/// What `try_find_program_address` returns: the first viable bump counting
/// down from 255.
pub open spec fn spec_try_find_program_address(seeds: Seq<Seq<u8>>, program_id: Seq<u8>) -> Option<
    (Seq<u8>, u8),
> {
    spec_find_from(seeds, program_id, 255)
}

impl Pubkey {
    /// Builds a pubkey from a 32-byte slice.
    pub fn new(pubkey_vec: &[u8]) -> (r: Pubkey)
        requires
            pubkey_vec@.len() == 32,
        ensures
            r@ == pubkey_vec@,
    {
        let mut arr: [u8; 32] = [0u8; 32];
        let mut i: usize = 0;
        while i < 32
            invariant
                pubkey_vec@.len() == 32,
                0 <= i <= 32,
                forall|j: int| 0 <= j < i ==> arr@[j] == pubkey_vec@[j],
            decreases 32 - i,
        {
            arr[i] = pubkey_vec[i];
            i += 1;
        }
        proof {
            assert(arr@ =~= pubkey_vec@);
        }
        Pubkey { bytes: arr }
    }

    pub fn new_from_array(pubkey_array: [u8; 32]) -> (r: Pubkey)
        ensures
            r@ == pubkey_array@,
    {
        Pubkey { bytes: pubkey_array }
    }

    /// Relies on rand::random for 32 fresh bytes; nothing is assumed of the result.
    #[verifier::external_body]
    pub fn new_rand() -> Pubkey {
        Pubkey { bytes: rand::random::<[u8; 32]>() }
    }

    /// A fresh identifier for fixtures.
    /// Relies on rand::random for 32 fresh bytes; nothing is assumed of the result.
    #[verifier::external_body]
    pub fn new_unique() -> Pubkey {
        Pubkey { bytes: rand::random::<[u8; 32]>() }
    }

    pub fn to_bytes(self) -> (r: [u8; 32])
        ensures
            r@ == self@,
    {
        self.bytes
    }

    pub fn as_bytes(&self) -> (r: &[u8; 32])
        ensures
            r@ == self@,
    {
        &self.bytes
    }

    /// Whether this id decodes to a point of the embedded curve (and could
    /// therefore double as a signable key).
    pub fn is_on_curve(&self) -> (r: bool)
        ensures
            r == is_curve_point(self@),
    {
        let v = clone_bytes(self.bytes.as_slice());
        bytes_are_curve_point(&v)
    }

    /// Relies on bs58::encode: the base58 text is a pure function of the bytes.
    #[verifier::external_body]
    pub fn to_base58(&self) -> (r: String)
        ensures
            r@ == base58_of(self@),
    {
        bs58::encode(&self.bytes).into_string()
    }

    /// Reads an id back from its base58 text: accepts exactly the strings
    /// that render some 32-byte id.
    pub fn from_str(s: &str) -> (r: Result<Pubkey, ParsePubkeyError>)
        ensures
            r matches Ok(pk) ==> base58_of(pk@) == s@,
    {
        if s.len() > MAX_BASE58_LEN {
            return Err(ParsePubkeyError::WrongSize);
        }
        match base58_decode(s) {
            None => Err(ParsePubkeyError::Invalid),
            Some(v) => {
                if v.len() != 32 {
                    return Err(ParsePubkeyError::WrongSize);
                }
                Ok(Pubkey::new(v.as_slice()))
            },
        }
    }

    /// Derives the address for the given seeds, or reports why none exists.
    pub fn create_program_address(seeds: &Vec<Vec<u8>>, program_id: &Pubkey) -> (r: Result<
        Pubkey,
        PubkeyError,
    >)
        ensures
            match r {
                Ok(pk) => spec_create_program_address(seeds.deep_view(), program_id@) == Ok::<
                    Seq<u8>,
                    PubkeyError,
                >(pk@),
                Err(e) => spec_create_program_address(seeds.deep_view(), program_id@) == Err::<
                    Seq<u8>,
                    PubkeyError,
                >(e),
            },
    {
        if seeds.len() > MAX_SEEDS {
            return Err(PubkeyError::MaxSeedLengthExceeded);
        }
        let n = seeds.len();
        let mut i: usize = 0;
        while i < n
            invariant
                n == seeds@.len(),
                0 <= i <= n,
                forall|j: int| 0 <= j < i ==> #[trigger] seeds.deep_view()[j].len()
                    <= MAX_SEED_LEN as int,
            decreases n - i,
        {
            if seeds[i].len() > MAX_SEED_LEN {
                assert(seeds.deep_view()[i as int].len() > MAX_SEED_LEN as int);
                return Err(PubkeyError::MaxSeedLengthExceeded);
            }
            i += 1;
        }
        let mut buf: Vec<u8> = Vec::new();
        let mut k: usize = 0;
        while k < n
            invariant
                n == seeds@.len(),
                0 <= k <= n,
                buf@ == spec_concat_seeds(seeds.deep_view().subrange(0, k as int)),
            decreases n - k,
        {
            push_bytes(&mut buf, seeds[k].as_slice());
            proof {
                let dv = seeds.deep_view();
                assert(dv.subrange(0, k + 1).drop_last() =~= dv.subrange(0, k as int));
                assert(dv.subrange(0, k + 1).last() == dv[k as int]);
            }
            k += 1;
        }
        proof {
            assert(seeds.deep_view().subrange(0, n as int) =~= seeds.deep_view());
        }
        push_bytes(&mut buf, program_id.bytes.as_slice());
        push_bytes(&mut buf, PDA_MARKER.as_slice());
        assert(buf@ == spec_pda_preimage(seeds.deep_view(), program_id@));
        let h = sha256(&buf);
        if bytes_are_curve_point(&h) {
            Err(PubkeyError::InvalidSeeds)
        } else {
            Ok(Pubkey::new(h.as_slice()))
        }
    }

    /// Searches bumps 255 down to 0 for a viable derived address.
    pub fn try_find_program_address(seeds: &Vec<Vec<u8>>, program_id: &Pubkey) -> (r: Option<
        (Pubkey, u8),
    >)
        ensures
            match r {
                Some(p) => spec_try_find_program_address(seeds.deep_view(), program_id@) == Some(
                    (p.0@, p.1),
                ),
                None => spec_try_find_program_address(seeds.deep_view(), program_id@) is None,
            },
    {
        let mut bump: i32 = 255;
        while bump >= 0
            invariant
                -1 <= bump <= 255,
                spec_try_find_program_address(seeds.deep_view(), program_id@) == spec_find_from(
                    seeds.deep_view(),
                    program_id@,
                    bump as int,
                ),
            decreases bump + 1,
        {
            let mut bump_seed: Vec<u8> = Vec::new();
            bump_seed.push(bump as u8);
            assert(bump_seed@ =~= seq![(bump as u8)]);
            let seeds_with_bump = seeds_with_extra(seeds, bump_seed);
            match Pubkey::create_program_address(&seeds_with_bump, program_id) {
                Ok(address) => {
                    return Some((address, bump as u8));
                },
                Err(PubkeyError::InvalidSeeds) => {
                    bump = bump - 1;
                },
                Err(_) => {
                    return None;
                },
            }
        }
        None
    }

    /// Recomputes the derivation for these seeds (bump included) and
    /// compares: true exactly when `claimed` is the derived address.
    pub fn verify_derived_address(
        seeds: &Vec<Vec<u8>>,
        program_id: &Pubkey,
        claimed: &Pubkey,
    ) -> (r: bool)
        ensures
            r == (spec_create_program_address(seeds.deep_view(), program_id@) == Ok::<
                Seq<u8>,
                PubkeyError,
            >(claimed@)),
    {
        match Pubkey::create_program_address(seeds, program_id) {
            Ok(derived) => derived.eq(claimed),
            Err(_) => false,
        }
    }

    /// The derivation that `try_find_program_address` is known to yield.
    pub fn find_program_address(seeds: &Vec<Vec<u8>>, program_id: &Pubkey) -> (r: (Pubkey, u8))
        requires
            spec_try_find_program_address(seeds.deep_view(), program_id@) is Some,
        ensures
            spec_try_find_program_address(seeds.deep_view(), program_id@) == Some((r.0@, r.1)),
    {
        match Pubkey::try_find_program_address(seeds, program_id) {
            Some(p) => p,
            None => {
                proof {
                    assert(false);
                }
                (Pubkey::new_from_array([0u8; 32]), 0)
            },
        }
    }

    /// What `create_with_seed` returns: the hash of base, seed and owner,
    /// unless the seed is oversized or the owner ends in the domain marker.
    pub open spec fn spec_create_with_seed(base: Seq<u8>, seed: Seq<u8>, owner: Seq<u8>) -> Result<
        Seq<u8>,
        PubkeyError,
    > {
        if seed.len() > MAX_SEED_LEN as int {
            Err(PubkeyError::MaxSeedLengthExceeded)
        } else if owner.len() >= 21 && owner.subrange(owner.len() - 21, owner.len() as int)
            == PDA_MARKER@ {
            Err(PubkeyError::IllegalOwner)
        } else {
            Ok(sha256_of(base + seed + owner))
        }
    }

    /// Derives an address from a base key, one seed and an owner.
    pub fn create_with_seed(base: &Pubkey, seed: &Vec<u8>, owner: &Pubkey) -> (r: Result<
        Pubkey,
        PubkeyError,
    >)
        ensures
            match r {
                Ok(pk) => Pubkey::spec_create_with_seed(base@, seed@, owner@) == Ok::<
                    Seq<u8>,
                    PubkeyError,
                >(pk@),
                Err(e) => Pubkey::spec_create_with_seed(base@, seed@, owner@) == Err::<
                    Seq<u8>,
                    PubkeyError,
                >(e),
            },
    {
        if seed.len() > MAX_SEED_LEN {
            return Err(PubkeyError::MaxSeedLengthExceeded);
        }
        let marker_slice = PDA_MARKER.as_slice();
        let owner_tail = slice_tail_21(&owner.bytes);
        if crate::utils::compare_arrays(owner_tail.as_slice(), marker_slice) {
            proof {
                assert(owner@.subrange(owner@.len() - 21, owner@.len() as int) == PDA_MARKER@);
            }
            return Err(PubkeyError::IllegalOwner);
        }
        let mut buf: Vec<u8> = Vec::new();
        push_bytes(&mut buf, base.bytes.as_slice());
        push_bytes(&mut buf, seed.as_slice());
        push_bytes(&mut buf, owner.bytes.as_slice());
        let h = sha256(&buf);
        Ok(Pubkey::new(h.as_slice()))
    }
}

/// The last 21 bytes of a 32-byte array.
fn slice_tail_21(a: &[u8; 32]) -> (r: Vec<u8>)
    ensures
        r@ == a@.subrange(11, 32),
{
    let mut out: Vec<u8> = Vec::new();
    let mut i: usize = 11;
    while i < 32
        invariant
            11 <= i <= 32,
            out@ == a@.subrange(11, i as int),
        decreases 32 - i,
    {
        out.push(a[i]);
        proof {
            assert(a@.subrange(11, i as int) + seq![a@[i as int]] =~= a@.subrange(11, i + 1));
        }
        i += 1;
    }
    out
}

/// Copies a seed list and appends one more seed.
pub fn seeds_with_extra(seeds: &Vec<Vec<u8>>, extra: Vec<u8>) -> (r: Vec<Vec<u8>>)
    ensures
        r.deep_view() == seeds.deep_view().push(extra@),
{
    let ghost ev = extra@;
    let mut out = clone_seeds(seeds);
    let ghost rv = out@;
    let ghost rdv = out.deep_view();
    out.push(extra);
    proof {
        let dv = seeds.deep_view();
        assert forall|j: int| 0 <= j < dv.len() + 1 implies out.deep_view()[j] == dv.push(ev)[j] by {
            if j < dv.len() {
                assert(out@[j] == rv[j]);
                assert(rdv[j] == dv[j]);
            } else {
                assert(out@[j].deep_view() =~= ev);
            }
        }
        assert(out.deep_view() =~= dv.push(ev));
    }
    out
}

/// Copies a seed list.
pub fn clone_seeds(seeds: &Vec<Vec<u8>>) -> (r: Vec<Vec<u8>>)
    ensures
        r.deep_view() == seeds.deep_view(),
        r@.len() == seeds@.len(),
{
    let mut out: Vec<Vec<u8>> = Vec::new();
    let n = seeds.len();
    let mut i: usize = 0;
    while i < n
        invariant
            n == seeds@.len(),
            0 <= i <= n,
            out@.len() == i,
            forall|j: int| 0 <= j < i ==> #[trigger] out@[j]@ == seeds@[j]@,
        decreases n - i,
    {
        let s = clone_bytes(seeds[i].as_slice());
        out.push(s);
        i += 1;
    }
    proof {
        assert forall|j: int| 0 <= j < n implies out.deep_view()[j] == seeds.deep_view()[j] by {
            assert(out@[j]@ == seeds@[j]@);
            assert(out@[j].deep_view() =~= out@[j]@);
            assert(seeds@[j].deep_view() =~= seeds@[j]@);
        }
        assert(out.deep_view() =~= seeds.deep_view());
    }
    out
}

} // verus!
