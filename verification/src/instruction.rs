use crate::pubkey::{clone_bytes, Pubkey};
use vstd::prelude::*;

verus! {

/// How an instruction declares one account: its id and the privileges the
/// callee is to receive on it.
#[derive(Clone, Debug)]
pub struct AccountMeta {
    pub pubkey: Pubkey,
    pub is_signer: bool,
    pub is_writable: bool,
}

impl AccountMeta {
    /// A writable account declaration.
    pub fn new(pubkey: Pubkey, is_signer: bool) -> (r: AccountMeta)
        ensures
            r.pubkey == pubkey,
            r.is_signer == is_signer,
            r.is_writable == true,
    {
        AccountMeta { pubkey, is_signer, is_writable: true }
    }

    /// A read-only account declaration.
    pub fn new_readonly(pubkey: Pubkey, is_signer: bool) -> (r: AccountMeta)
        ensures
            r.pubkey == pubkey,
            r.is_signer == is_signer,
            r.is_writable == false,
    {
        AccountMeta { pubkey, is_signer, is_writable: false }
    }
}

/// One cross-program call: the target program, the declared accounts, and
/// opaque instruction data.
#[derive(Clone, Debug)]
pub struct Instruction {
    pub program_id: Pubkey,
    pub accounts: Vec<AccountMeta>,
    pub data: Vec<u8>,
}

impl Instruction {
    pub fn new_with_bytes(program_id: Pubkey, data: &[u8], accounts: Vec<AccountMeta>) -> (r:
        Instruction)
        ensures
            r.program_id == program_id,
            r.data@ == data@,
            r.accounts == accounts,
    {
        Instruction { program_id, accounts, data: clone_bytes(data) }
    }
}

} // verus!
