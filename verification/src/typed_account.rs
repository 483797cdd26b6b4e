use crate::account::{Account, Meta};
use crate::codec::{BorshCodec, Pack};
use crate::errors::{ProgramError, ProgramResult};
use crate::pubkey::Pubkey;
use crate::utils::spec_rent_exempt_for_size;
use vstd::prelude::*;

verus! {

broadcast use crate::pubkey::lemma_pubkey_len;

/// Which of the two representations of a typed account is ahead. The
/// explicit three-state machine leaves no way to mark both at once.
#[derive(Clone, Copy, Debug, PartialEq, Eq, Structural)]
pub enum SyncState {
    InSync,
    BytesAhead,
    StructAhead,
}

/// A serialization bridge for typed-account payloads: a value can be
/// written out as the account's whole data, and read back from it.
pub trait StructWrapper: Sized {
    /// The encoding of this value.
    spec fn spec_bytes(&self) -> Seq<u8>;

    /// Whether a value can be read from `data`.
    spec fn spec_loads(data: Seq<u8>) -> bool;

    /// Replaces `dst` with the encoding.
    fn _serialize(&self, dst: &mut Vec<u8>)
        ensures
            final(dst)@ == self.spec_bytes(),
    ;

    /// Reads a value back; the result is the one value whose encoding is
    /// a prefix of `input`.
    fn _deserialize(input: &[u8]) -> (r: Option<Self>)
        ensures
            r is Some <==> Self::spec_loads(input@),
            r matches Some(v) ==> v.spec_bytes().len() <= input@.len() && v.spec_bytes()
                == input@.subrange(0, v.spec_bytes().len() as int),
    ;

    /// An encoding can be read back.
    proof fn lemma_bytes_load(v: Self)
        ensures
            Self::spec_loads(v.spec_bytes()),
    ;

    /// No encoding is a proper prefix of another.
    proof fn lemma_prefix_injective(a: Self, b: Self)
        requires
            a.spec_bytes().len() <= b.spec_bytes().len(),
            a.spec_bytes() == b.spec_bytes().subrange(0, a.spec_bytes().len() as int),
        ensures
            a == b,
    ;
}

/// Round trip: the one value readable from its own encoding, with
/// anything at all after it, is the value itself.
pub proof fn lemma_wrapper_round_trip<T: StructWrapper>(v: T, w: T, extra: Seq<u8>)
    requires
        w.spec_bytes().len() <= (v.spec_bytes() + extra).len(),
        w.spec_bytes() == (v.spec_bytes() + extra).subrange(0, w.spec_bytes().len() as int),
    ensures
        w == v,
{
    let s = v.spec_bytes() + extra;
    let lv = v.spec_bytes().len() as int;
    let lw = w.spec_bytes().len() as int;
    assert(v.spec_bytes() =~= s.subrange(0, lv));
    if lw <= lv {
        assert(w.spec_bytes() =~= v.spec_bytes().subrange(0, lw));
        T::lemma_prefix_injective(w, v);
    } else {
        assert(v.spec_bytes() =~= w.spec_bytes().subrange(0, lv));
        T::lemma_prefix_injective(v, w);
    }
}

/// A payload carried in the fixtures' field-by-field encoding.
pub struct BorshedWrapper<T: BorshCodec> {
    pub data: T,
}

impl<T: BorshCodec> BorshedWrapper<T> {
    pub fn new(data: T) -> (r: BorshedWrapper<T>)
        ensures
            r.data == data,
    {
        BorshedWrapper { data }
    }
}

impl<T: BorshCodec> StructWrapper for BorshedWrapper<T> {
    open spec fn spec_bytes(&self) -> Seq<u8> {
        self.data.spec_bytes()
    }

    open spec fn spec_loads(data: Seq<u8>) -> bool {
        T::spec_parses(data)
    }

    fn _serialize(&self, dst: &mut Vec<u8>) {
        let fresh = crate::codec::encode_to_vec(&self.data);
        *dst = fresh;
    }

    fn _deserialize(input: &[u8]) -> (r: Option<Self>) {
        match T::parse(input) {
            Some(v) => Some(BorshedWrapper { data: v }),
            None => None,
        }
    }

    proof fn lemma_bytes_load(v: Self) {
        T::lemma_encoding_parses(v.data, Seq::empty());
        assert(v.data.spec_bytes() + Seq::<u8>::empty() =~= v.data.spec_bytes());
    }

    proof fn lemma_prefix_injective(a: Self, b: Self) {
        T::lemma_prefix_injective(a.data, b.data);
    }
}

/// A payload carried in a fixed-size packed layout.
pub struct PackedWrapper<T: Pack> {
    pub data: T,
}

impl<T: Pack> PackedWrapper<T> {
    pub fn new(data: T) -> (r: PackedWrapper<T>)
        ensures
            r.data == data,
    {
        PackedWrapper { data }
    }
}

impl<T: Pack> StructWrapper for PackedWrapper<T> {
    open spec fn spec_bytes(&self) -> Seq<u8> {
        self.data.spec_pack()
    }

    open spec fn spec_loads(data: Seq<u8>) -> bool {
        T::spec_unpacks(data)
    }

    fn _serialize(&self, dst: &mut Vec<u8>) {
        let fresh = self.data.pack();
        *dst = fresh;
    }

    fn _deserialize(input: &[u8]) -> (r: Option<Self>) {
        match T::unpack_from_slice(input) {
            Some(v) => {
                proof {
                    assert(v.spec_pack() =~= input@.subrange(0, v.spec_pack().len() as int));
                }
                Some(PackedWrapper { data: v })
            },
            None => None,
        }
    }

    proof fn lemma_bytes_load(v: Self) {
        T::lemma_pack_unpacks(v.data);
    }

    proof fn lemma_prefix_injective(a: Self, b: Self) {
        T::lemma_pack_len(a.data);
        T::lemma_pack_len(b.data);
        assert(a.data.spec_pack() =~= b.data.spec_pack());
        T::lemma_pack_injective(a.data, b.data);
    }
}

/// An account fixture paired with a lazily synchronized structured view
/// of its data.
pub struct TypedAccount<T: StructWrapper> {
    pub account: Account,
    pub sync: SyncState,
    pub data: T,
}

impl<T: StructWrapper> TypedAccount<T> {
    /// In sync, the account's data begins with the value's encoding.
    pub open spec fn spec_wf(self) -> bool {
        self.sync == SyncState::InSync ==> self.data.spec_bytes().len()
            <= self.account.data@.len() && self.data.spec_bytes() == self.account.data@.subrange(
            0,
            self.data.spec_bytes().len() as int,
        )
    }

    /// A fresh rent-funded account holding the encoding of `data`.
    pub fn new(pubkey: Pubkey, owner: &Pubkey, data: T) -> (r: TypedAccount<T>)
        requires
            spec_rent_exempt_for_size(data.spec_bytes().len()) <= u64::MAX,
        ensures
            r.spec_wf(),
            r.sync == SyncState::InSync,
            r.data == data,
            r.account.pubkey == pubkey,
            r.account.owner == *owner,
            r.account.data@ == data.spec_bytes(),
            r.account.lamports as nat == spec_rent_exempt_for_size(data.spec_bytes().len()),
    {
        let mut bytes: Vec<u8> = Vec::new();
        data._serialize(&mut bytes);
        let lamports = crate::utils::rent_exempt_for_size(bytes.len());
        proof {
            assert(bytes@.subrange(0, bytes@.len() as int) =~= bytes@);
        }
        TypedAccount {
            account: Account::new(pubkey, lamports, owner, bytes),
            sync: SyncState::InSync,
            data,
        }
    }

    /// Adopts an existing account whose data holds a readable value; the
    /// structured side is marked ahead, so the next sync normalizes the
    /// bytes.
    pub fn from_account(account: Account) -> (r: Option<TypedAccount<T>>)
        ensures
            r is Some <==> T::spec_loads(account.data@),
            r matches Some(t) ==> {
                &&& t.spec_wf()
                &&& t.sync == SyncState::StructAhead
                &&& t.account == account
                &&& t.data.spec_bytes().len() <= account.data@.len()
                &&& t.data.spec_bytes() == account.data@.subrange(
                    0,
                    t.data.spec_bytes().len() as int,
                )
            },
    {
        match T::_deserialize(account.data.as_slice()) {
            Some(data) => Some(TypedAccount { account, sync: SyncState::StructAhead, data }),
            None => None,
        }
    }

    pub fn pubkey(&self) -> (r: &Pubkey)
        ensures
            r == self.account.pubkey,
    {
        &self.account.pubkey
    }

    pub fn lamports(&self) -> (r: u64)
        ensures
            r == self.account.lamports,
    {
        self.account.lamports
    }

    /// Writes the structured value into the account's data.
    pub fn copy_struct_to_bytes(&mut self)
        ensures
            final(self).sync == SyncState::InSync,
            final(self).spec_wf(),
            final(self).data == old(self).data,
            final(self).account.pubkey == old(self).account.pubkey,
            final(self).account.lamports == old(self).account.lamports,
            final(self).account.owner == old(self).account.owner,
            final(self).account.data@ == old(self).data.spec_bytes(),
    {
        let mut bytes: Vec<u8> = Vec::new();
        self.data._serialize(&mut bytes);
        proof {
            assert(bytes@.subrange(0, bytes@.len() as int) =~= bytes@);
        }
        self.account.data = bytes;
        self.sync = SyncState::InSync;
    }

    /// Reads the structured value back from the account's data. On an
    /// in-sync cache this provably hands back the value already held:
    /// the round trip reproduces it exactly.
    pub fn copy_bytes_to_struct(&mut self) -> (r: ProgramResult)
        requires
            old(self).spec_wf(),
        ensures
            final(self).account == old(self).account,
            r is Ok <==> T::spec_loads(old(self).account.data@),
            r is Err ==> r == Err::<(), ProgramError>(ProgramError::InvalidAccountData) && *final(self) == *old(self),
            r is Ok ==> {
                &&& final(self).sync == SyncState::InSync
                &&& final(self).spec_wf()
                &&& final(self).data.spec_bytes().len() <= old(self).account.data@.len()
                &&& final(self).data.spec_bytes() == old(self).account.data@.subrange(
                    0,
                    final(self).data.spec_bytes().len() as int,
                )
                &&& old(self).sync == SyncState::InSync ==> final(self).data == old(self).data
            },
    {
        match T::_deserialize(self.account.data.as_slice()) {
            Some(data) => {
                proof {
                    if old(self).sync == SyncState::InSync {
                        let extra = old(self).account.data@.skip(
                            old(self).data.spec_bytes().len() as int,
                        );
                        assert(old(self).data.spec_bytes() + extra =~= old(self).account.data@);
                        lemma_wrapper_round_trip(old(self).data, data, extra);
                    }
                }
                let fresh = data;
                self.data = fresh;
                self.sync = SyncState::InSync;
                proof {
                    if old(self).sync != SyncState::InSync {
                        assert(self.data.spec_bytes() == self.account.data@.subrange(
                            0,
                            self.data.spec_bytes().len() as int,
                        ));
                    }
                }
                Ok(())
            },
            None => Err(ProgramError::InvalidAccountData),
        }
    }

    /// The structured view, reconciling a bytes-ahead cache first.
    pub fn get(&mut self) -> (r: Result<&T, ProgramError>)
        requires
            old(self).spec_wf(),
        ensures
            final(self).account == old(self).account,
            r matches Ok(v) ==> *v == final(self).data && final(self).spec_wf() && (old(self).sync
                != SyncState::BytesAhead ==> *final(self) == *old(self)),
            r is Err ==> old(self).sync == SyncState::BytesAhead && !T::spec_loads(
                old(self).account.data@,
            ) && *final(self) == *old(self),
    {
        if matches!(self.sync, SyncState::BytesAhead) {
            match self.copy_bytes_to_struct() {
                Ok(_) => (),
                Err(e) => {
                    return Err(e);
                },
            }
        }
        Ok(&self.data)
    }

    /// Replaces the structured value, marking the structured side ahead.
    pub fn set(&mut self, value: T)
        ensures
            final(self).data == value,
            final(self).sync == SyncState::StructAhead,
            final(self).spec_wf(),
            final(self).account == old(self).account,
    {
        self.data = value;
        self.sync = SyncState::StructAhead;
    }

    /// The record a scope starts from for this account: a struct-ahead
    /// cache is written out first, so the record carries the encoding.
    pub fn meta(&mut self, is_signer: bool, is_writable: bool) -> (r: (Pubkey, Meta))
        requires
            old(self).spec_wf(),
        ensures
            final(self).spec_wf(),
            r.0 == old(self).account.pubkey,
            r.1.is_signer == is_signer,
            r.1.is_writable == is_writable,
            r.1.executable == false,
            r.1.package is None,
            r.1.lamports == old(self).account.lamports,
            r.1.owner == old(self).account.owner,
            old(self).sync == SyncState::StructAhead ==> r.1.data@ == old(self).data.spec_bytes(),
            old(self).sync != SyncState::StructAhead ==> r.1.data@ == old(self).account.data@,
            is_writable ==> final(self).sync == SyncState::BytesAhead,
    {
        if matches!(self.sync, SyncState::StructAhead) {
            self.copy_struct_to_bytes();
        }
        let r = self.account.meta(is_signer, is_writable);
        if is_writable {
            self.sync = SyncState::BytesAhead;
        }
        r
    }

    /// Adopts the post-invocation state of this account, marking the
    /// bytes ahead.
    pub fn update_from(&mut self, account: Account)
        ensures
            final(self).account == account,
            final(self).sync == SyncState::BytesAhead,
            final(self).spec_wf(),
            final(self).data == old(self).data,
    {
        self.account = account;
        self.sync = SyncState::BytesAhead;
    }
}

impl<B: BorshCodec> TypedAccount<BorshedWrapper<B>> {
    /// A fresh typed account holding a field-by-field encoded value.
    pub fn new_borshed(pubkey: Pubkey, owner: &Pubkey, data: B) -> (r: TypedAccount<
        BorshedWrapper<B>,
    >)
        requires
            spec_rent_exempt_for_size(data.spec_bytes().len()) <= u64::MAX,
        ensures
            r.spec_wf(),
            r.sync == SyncState::InSync,
            r.data.data == data,
            r.account.pubkey == pubkey,
            r.account.owner == *owner,
            r.account.data@ == data.spec_bytes(),
    {
        TypedAccount::new(pubkey, owner, BorshedWrapper::new(data))
    }

    /// Adopts an existing account carrying a field-by-field encoded value.
    pub fn from_account_borshed(account: Account) -> (r: Option<TypedAccount<BorshedWrapper<B>>>)
        ensures
            r is Some <==> B::spec_parses(account.data@),
            r matches Some(t) ==> {
                &&& t.spec_wf()
                &&& t.sync == SyncState::StructAhead
                &&& t.account == account
                &&& t.data.data.spec_bytes().len() <= account.data@.len()
                &&& t.data.data.spec_bytes() == account.data@.subrange(
                    0,
                    t.data.data.spec_bytes().len() as int,
                )
            },
    {
        TypedAccount::<BorshedWrapper<B>>::from_account(account)
    }
}

impl<P: Pack> TypedAccount<PackedWrapper<P>> {
    /// A fresh typed account holding a packed value.
    pub fn new_packed(pubkey: Pubkey, owner: &Pubkey, data: P) -> (r: TypedAccount<
        PackedWrapper<P>,
    >)
        requires
            spec_rent_exempt_for_size(data.spec_pack().len()) <= u64::MAX,
        ensures
            r.spec_wf(),
            r.sync == SyncState::InSync,
            r.data.data == data,
            r.account.pubkey == pubkey,
            r.account.owner == *owner,
            r.account.data@ == data.spec_pack(),
    {
        TypedAccount::new(pubkey, owner, PackedWrapper::new(data))
    }

    /// Adopts an existing account carrying a packed value.
    pub fn from_account_packed(account: Account) -> (r: Option<TypedAccount<PackedWrapper<P>>>)
        ensures
            r is Some <==> P::spec_unpacks(account.data@),
            r matches Some(t) ==> {
                &&& t.spec_wf()
                &&& t.sync == SyncState::StructAhead
                &&& t.account == account
                &&& t.data.data.spec_pack() == account.data@
            },
    {
        let ghost adata = account.data@;
        let r = TypedAccount::<PackedWrapper<P>>::from_account(account);
        proof {
            match r {
                Some(ref t) => {
                    P::lemma_unpacks_is_image(adata);
                    let v = choose|v: P| (#[trigger] v.spec_pack()) == adata;
                    P::lemma_pack_len(v);
                    P::lemma_pack_len(t.data.data);
                    assert(t.data.data.spec_pack() =~= adata);
                },
                None => {},
            }
        }
        r
    }
}

} // verus!
