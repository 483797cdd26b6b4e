use crate::errors::{ProgramError, ProgramResult};
use crate::instruction::AccountMeta;
use crate::pubkey::Pubkey;
use crate::scope::Scope;
use vstd::prelude::*;

verus! {

broadcast use crate::pubkey::lemma_pubkey_len;

/// The most bytes one call may grow an account's data by.
pub const MAX_PERMITTED_DATA_INCREASE: usize = 1024 * 10;

/// A program's view of one account in the working set: the store index it
/// addresses, and the privilege flags this call granted. Many views may
/// address the same record; the record itself lives in the scope's store.
#[derive(Clone, Copy, Debug)]
pub struct AccountInfo {
    pub key: Pubkey,
    pub index: usize,
    pub is_signer: bool,
    pub is_writable: bool,
    pub executable: bool,
}

impl AccountInfo {
    pub fn new(key: Pubkey, index: usize, is_signer: bool, is_writable: bool, executable: bool) -> (r: AccountInfo)
        ensures
            r.key == key,
            r.index == index,
            r.is_signer == is_signer,
            r.is_writable == is_writable,
            r.executable == executable,
    {
        AccountInfo { key, index, is_signer, is_writable, executable }
    }

    /// The id, only when this view carries signer privilege.
    pub fn signer_key(&self) -> (r: Option<&Pubkey>)
        ensures
            self.is_signer ==> r == Some(&self.key),
            !self.is_signer ==> r is None,
    {
        if self.is_signer {
            Some(&self.key)
        } else {
            None
        }
    }

    /// The id, regardless of privilege.
    pub fn unsigned_key(&self) -> (r: &Pubkey)
        ensures
            r == self.key,
    {
        &self.key
    }

    /// The same view under the flags an instruction declares.
    pub fn assign_meta(&self, meta: &AccountMeta) -> (r: AccountInfo)
        ensures
            r.key == self.key,
            r.index == self.index,
            r.is_signer == meta.is_signer,
            r.is_writable == meta.is_writable,
            r.executable == self.executable,
    {
        AccountInfo {
            key: self.key.clone(),
            index: self.index,
            is_signer: meta.is_signer,
            is_writable: meta.is_writable,
            executable: self.executable,
        }
    }

    /// The account's balance.
    pub fn lamports(&self, scope: &Scope) -> (r: u64)
        requires
            scope.spec_valid_info(*self),
        ensures
            r == scope.metas@[self.index as int].1.lamports,
    {
        scope.lamports_at(self.index)
    }

    pub fn try_lamports(&self, scope: &Scope) -> (r: Result<u64, ProgramError>)
        requires
            scope.spec_valid_info(*self),
        ensures
            r == Ok::<u64, ProgramError>(scope.metas@[self.index as int].1.lamports),
    {
        Ok(self.lamports(scope))
    }

    /// The account's owner.
    pub fn owner(&self, scope: &Scope) -> (r: Pubkey)
        requires
            scope.spec_valid_info(*self),
        ensures
            r == scope.metas@[self.index as int].1.owner,
    {
        scope.owner_at(self.index)
    }

    /// The account's data length.
    pub fn data_len(&self, scope: &Scope) -> (r: usize)
        requires
            scope.spec_valid_info(*self),
        ensures
            r == scope.metas@[self.index as int].1.data@.len(),
    {
        scope.data_len_at(self.index)
    }

    pub fn try_data_len(&self, scope: &Scope) -> (r: Result<usize, ProgramError>)
        requires
            scope.spec_valid_info(*self),
        ensures
            r == Ok::<usize, ProgramError>(scope.metas@[self.index as int].1.data@.len() as usize),
    {
        Ok(self.data_len(scope))
    }

    /// Whether the account holds no data.
    pub fn data_is_empty(&self, scope: &Scope) -> (r: bool)
        requires
            scope.spec_valid_info(*self),
        ensures
            r == (scope.metas@[self.index as int].1.data@.len() == 0),
    {
        self.data_len(scope) == 0
    }

    pub fn try_data_is_empty(&self, scope: &Scope) -> (r: Result<bool, ProgramError>)
        requires
            scope.spec_valid_info(*self),
        ensures
            r == Ok::<bool, ProgramError>(scope.metas@[self.index as int].1.data@.len() == 0),
    {
        Ok(self.data_is_empty(scope))
    }

    /// The account's data.
    pub fn data<'a>(&self, scope: &'a Scope) -> (r: &'a Vec<u8>)
        requires
            scope.spec_valid_info(*self),
        ensures
            r@ == scope.metas@[self.index as int].1.data@,
    {
        scope.data_at(self.index)
    }

    /// Resizes the account's data in place, zero-filling any growth.
    /// Fails `InvalidRealloc` when the growth in one call exceeds the cap,
    /// and `AccountNotRentExempt` when the balance does not cover the
    /// minimum for the new size; the resize itself stands even then.
    pub fn realloc(&self, scope: &mut Scope, new_len: usize, zero_init: bool) -> (r: ProgramResult)
        requires
            old(scope).spec_valid_info(*self),
            old(scope).spec_wf(),
        ensures
            final(scope).spec_wf(),
            crate::scope::spec_same_shape(*old(scope), *final(scope)),
            final(scope).receipt == old(scope).receipt,
            final(scope).spec_valid_info(*self),
            forall|i: int|
                0 <= i < old(scope).spec_len() && i != self.index ==> #[trigger] final(scope).metas@[i]
                    == old(scope).metas@[i],
            final(scope).metas@[self.index as int].1.lamports == old(scope).metas@[self.index as int].1.lamports,
            final(scope).metas@[self.index as int].1.owner == old(scope).metas@[self.index as int].1.owner,
            ({
                let old_data = old(scope).metas@[self.index as int].1.data@;
                let new_data = final(scope).metas@[self.index as int].1.data@;
                if new_len as nat == old_data.len() {
                    r is Ok && new_data == old_data
                } else if new_len as nat > old_data.len() + MAX_PERMITTED_DATA_INCREASE as nat {
                    r == Err::<(), ProgramError>(ProgramError::InvalidRealloc) && new_data
                        == old_data
                } else {
                    (new_data.len() == new_len as nat && new_data == if new_len as nat
                        <= old_data.len() {
                        old_data.subrange(0, new_len as int)
                    } else {
                        old_data + Seq::new((new_len as nat - old_data.len()) as nat, |i: int| 0u8)
                    }) && (r is Ok <==> final(scope).spec_rent_exempt_entry(self.index as int)) && (
                    r is Err ==> r == Err::<(), ProgramError>(ProgramError::AccountNotRentExempt))
                }
            }),
    {
        let old_len = self.data_len(scope);
        if new_len == old_len {
            return Ok(());
        }
        if new_len > old_len && new_len - old_len > MAX_PERMITTED_DATA_INCREASE {
            return Err(ProgramError::InvalidRealloc);
        }
        let data = scope.data_at(self.index);
        let mut resized: Vec<u8> = Vec::new();
        if new_len <= old_len {
            let mut i: usize = 0;
            while i < new_len
                invariant
                    new_len <= data@.len(),
                    0 <= i <= new_len,
                    resized@ == data@.subrange(0, i as int),
                decreases new_len - i,
            {
                resized.push(data[i]);
                i += 1;
            }
        } else {
            resized = crate::pubkey::clone_bytes(data.as_slice());
            let mut i: usize = old_len;
            while i < new_len
                invariant
                    old_len == data@.len(),
                    old_len <= i <= new_len,
                    resized@ == data@ + Seq::new((i - old_len) as nat, |k: int| 0u8),
                decreases new_len - i,
            {
                resized.push(0u8);
                proof {
                    assert(data@ + Seq::new((i - old_len) as nat, |k: int| 0u8) + seq![0u8]
                        =~= data@ + Seq::new((i + 1 - old_len) as nat, |k: int| 0u8));
                }
                i += 1;
            }
        }
        proof {
            if new_len <= old_len {
            } else {
                assert(data@ + Seq::new((new_len - old_len) as nat, |k: int| 0u8) == resized@);
            }
        }
        scope.set_data_at(self.index, resized);
        let min_lamports = scope.minimum_balance_wide(new_len);
        let have = scope.lamports_at(self.index);
        if (have as u128) < min_lamports {
            return Err(ProgramError::AccountNotRentExempt);
        }
        Ok(())
    }
}

/// Hands out the next account view, advancing the cursor.
pub fn next_account_info(accounts: &Vec<AccountInfo>, cursor: &mut usize) -> (r: Result<
    AccountInfo,
    ProgramError,
>)
    ensures
        *old(cursor) < accounts@.len() ==> r == Ok::<AccountInfo, ProgramError>(
            accounts@[*old(cursor) as int],
        ) && *final(cursor) == *old(cursor) + 1,
        *old(cursor) >= accounts@.len() ==> r == Err::<AccountInfo, ProgramError>(
            ProgramError::NotEnoughAccountKeys,
        ) && *final(cursor) == *old(cursor),
{
    if *cursor < accounts.len() {
        let info = accounts[*cursor].clone();
        *cursor = *cursor + 1;
        Ok(info)
    } else {
        Err(ProgramError::NotEnoughAccountKeys)
    }
}

/// Hands out the next `count` account views, advancing the cursor.
pub fn next_account_infos(accounts: &Vec<AccountInfo>, cursor: &mut usize, count: usize) -> (r:
    Result<Vec<AccountInfo>, ProgramError>)
    ensures
        r matches Ok(v) ==> *old(cursor) + count <= accounts@.len() && v@ == accounts@.subrange(
            *old(cursor) as int,
            *old(cursor) + count,
        ) && *final(cursor) == *old(cursor) + count,
        r is Err ==> r == Err::<Vec<AccountInfo>, ProgramError>(ProgramError::NotEnoughAccountKeys)
            && *final(cursor) == *old(cursor),
{
    let n = accounts.len();
    if *cursor > n || count > n - *cursor {
        return Err(ProgramError::NotEnoughAccountKeys);
    }
    let mut out: Vec<AccountInfo> = Vec::new();
    let start = *cursor;
    let mut i: usize = 0;
    while i < count
        invariant
            n == accounts@.len(),
            start + count <= n,
            0 <= i <= count,
            out@ == accounts@.subrange(start as int, start + i),
        decreases count - i,
    {
        out.push(accounts[start + i].clone());
        proof {
            assert(accounts@.subrange(start as int, start + i) + seq![accounts@[start + i]]
                =~= accounts@.subrange(start as int, start + i + 1));
        }
        i += 1;
    }
    *cursor = start + count;
    Ok(out)
}

} // verus!
