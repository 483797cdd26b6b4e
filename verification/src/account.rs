use crate::codec::BorshCodec;
use crate::package::Package;
use crate::pubkey::{clone_bytes, Pubkey};
use crate::utils::spec_rent_exempt_for_size;
use vstd::prelude::*;

verus! {

/// One account's state as a scope holds it: balance, owner, data and the
/// per-invocation flags, plus the package for executable accounts.
/// Many nested calls may address the same record; in a scope the record
/// lives once, in the store, and views address it by index.
#[derive(Debug)]
pub struct Meta {
    pub is_signer: bool,
    pub is_writable: bool,
    pub executable: bool,
    pub lamports: u64,
    pub owner: Pubkey,
    pub data: Vec<u8>,
    pub package: Option<Package>,
}

/// An account fixture owned by the test: id, balance, owner and data.
/// `meta` snapshots it into the record a scope starts from.
#[derive(Clone, Debug)]
pub struct Account {
    pub pubkey: Pubkey,
    pub lamports: u64,
    pub owner: Pubkey,
    pub data: Vec<u8>,
}

impl Account {
    pub fn new(pubkey: Pubkey, lamports: u64, owner: &Pubkey, data: Vec<u8>) -> (r: Account)
        ensures
            r.pubkey == pubkey,
            r.lamports == lamports,
            r.owner == *owner,
            r.data == data,
    {
        Account { pubkey, lamports, owner: owner.clone(), data }
    }

    /// The record a scope starts from for this account, with the given
    /// top-level privilege flags.
    pub fn meta(&self, is_signer: bool, is_writable: bool) -> (r: (Pubkey, Meta))
        ensures
            r.0 == self.pubkey,
            r.1.is_signer == is_signer,
            r.1.is_writable == is_writable,
            r.1.executable == false,
            r.1.lamports == self.lamports,
            r.1.owner == self.owner,
            r.1.data@ == self.data@,
            r.1.package is None,
    {
        (
            self.pubkey.clone(),
            Meta {
                is_signer,
                is_writable,
                executable: false,
                lamports: self.lamports,
                owner: self.owner.clone(),
                data: clone_bytes(self.data.as_slice()),
                package: None,
            },
        )
    }

    pub fn pubkey(&self) -> (r: &Pubkey)
        ensures
            r == self.pubkey,
    {
        &self.pubkey
    }

    /// Whether the balance is as stated.
    pub fn expect_balance(&self, balance: u64) -> (r: bool)
        ensures
            r == (self.lamports == balance),
    {
        self.lamports == balance
    }

    /// Whether the owner is as stated.
    pub fn expect_owner(&self, owner: &Pubkey) -> (r: bool)
        ensures
            r == (self.owner@ == owner@),
    {
        self.owner.eq(owner)
    }

    /// Whether the data is exactly these bytes.
    pub fn expect_bytes(&self, bytes: &[u8]) -> (r: bool)
        ensures
            r == (self.data@ == bytes@),
    {
        crate::utils::compare_arrays(self.data.as_slice(), bytes)
    }

    /// Whether the data is exactly the encoding of `data`.
    pub fn expect_data<T: BorshCodec>(&self, data: &T) -> (r: bool)
        ensures
            r == (self.data@ == data.spec_bytes()),
    {
        let bytes = crate::codec::encode_to_vec(data);
        crate::utils::compare_arrays(self.data.as_slice(), bytes.as_slice())
    }

    /// A fresh rent-exempt account holding the encoding of `data`.
    pub fn new_with_borsh_data<T: BorshCodec>(pubkey: Pubkey, owner: &Pubkey, data: &T) -> (r:
        Account)
        requires
            spec_rent_exempt_for_size(data.spec_bytes().len()) <= u64::MAX,
        ensures
            r.pubkey == pubkey,
            r.owner == *owner,
            r.data@ == data.spec_bytes(),
            r.lamports as nat == spec_rent_exempt_for_size(data.spec_bytes().len()),
    {
        let bytes = crate::codec::encode_to_vec(data);
        let lamports = crate::utils::rent_exempt_for_size(bytes.len());
        Account::new(pubkey, lamports, owner, bytes)
    }

    /// Appends the encoding of `data` to the account's data.
    pub fn borsh_serialize<T: BorshCodec>(&mut self, data: &T)
        ensures
            final(self).data@ == old(self).data@ + data.spec_bytes(),
            final(self).pubkey == old(self).pubkey,
            final(self).lamports == old(self).lamports,
            final(self).owner == old(self).owner,
    {
        data.write_bytes(&mut self.data);
    }

    /// Reads a value back from the front of the account's data.
    pub fn borsh_deserialize<T: BorshCodec>(&self) -> (r: Option<T>)
        ensures
            r is Some <==> T::spec_parses(self.data@),
            r matches Some(v) ==> v.spec_bytes().len() <= self.data@.len() && v.spec_bytes()
                == self.data@.subrange(0, v.spec_bytes().len() as int),
    {
        T::parse(self.data.as_slice())
    }
}

} // verus!
