use crate::account_info::AccountInfo;
use crate::codec::BorshCodec;
use crate::errors::{
    convert_instruction_error, spec_convert_instruction_error, InstructionError, ProgramError,
    ProgramResult, SystemError,
};
use crate::program_ids::{is_system_program_id, SYSTEM_PROGRAM_ID_BYTES};
use crate::pubkey::Pubkey;
use crate::receipt::spec_log_extends;
use crate::scope::{spec_same_shape, Scope};
use crate::system_instruction::{SystemInstruction, MAX_PERMITTED_DATA_LENGTH};
use vstd::prelude::*;

verus! {

broadcast use crate::pubkey::lemma_pubkey_len;

/// A data buffer of `n` zero bytes.
pub fn zero_vec(n: usize) -> (r: Vec<u8>)
    ensures
        r@ == Seq::new(n as nat, |i: int| 0u8),
{
    let mut out: Vec<u8> = Vec::new();
    let mut i: usize = 0;
    while i < n
        invariant
            0 <= i <= n,
            out@ == Seq::new(i as nat, |k: int| 0u8),
        decreases n - i,
    {
        out.push(0u8);
        proof {
            assert(out@ =~= Seq::new((i + 1) as nat, |k: int| 0u8));
        }
        i += 1;
    }
    out
}

/// The built-in system program: account creation, assignment, transfers
/// and allocation over the scope's store.
pub struct SystemProgramPackage {}

/// What `allocate` decides, given the target's record and view.
pub open spec fn spec_allocate_check(pre: Scope, info: AccountInfo, space: u64) -> Result<
    (),
    InstructionError,
> {
    let m = pre.metas@[info.index as int].1;
    if !info.is_signer {
        Err(InstructionError::MissingRequiredSignature)
    } else if m.data@.len() != 0 || m.owner@ != SYSTEM_PROGRAM_ID_BYTES@ {
        Err(InstructionError::Custom(0))
    } else if space > MAX_PERMITTED_DATA_LENGTH {
        Err(InstructionError::Custom(3))
    } else {
        Ok(())
    }
}

/// What `assign` decides.
pub open spec fn spec_assign_check(pre: Scope, info: AccountInfo, owner: Pubkey) -> Result<
    (),
    InstructionError,
> {
    let m = pre.metas@[info.index as int].1;
    if m.owner@ == owner@ {
        Ok(())
    } else if !info.is_signer {
        Err(InstructionError::MissingRequiredSignature)
    } else {
        Ok(())
    }
}

/// What `transfer` decides, given both records and the source view.
pub open spec fn spec_transfer_check(
    pre: Scope,
    from: AccountInfo,
    to: AccountInfo,
    lamports: u64,
) -> Result<(), InstructionError> {
    let mf = pre.metas@[from.index as int].1;
    let mt = pre.metas@[to.index as int].1;
    if !from.is_signer {
        Err(InstructionError::MissingRequiredSignature)
    } else if from.executable {
        Err(InstructionError::ExecutableLamportChange)
    } else if mf.data@.len() != 0 {
        Err(InstructionError::InvalidArgument)
    } else if !from.is_writable {
        Err(InstructionError::ReadonlyLamportChange)
    } else if lamports > mf.lamports {
        Err(InstructionError::Custom(1))
    } else if from.index != to.index && mt.lamports + lamports > u64::MAX {
        Err(InstructionError::InvalidArgument)
    } else {
        Ok(())
    }
}

/// What `create_account` decides: the target must be unfunded, then the
/// allocation and the funding transfer must both be admissible.
pub open spec fn spec_create_account_check(
    pre: Scope,
    from: AccountInfo,
    to: AccountInfo,
    lamports: u64,
    space: u64,
) -> Result<(), InstructionError> {
    let mt = pre.metas@[to.index as int].1;
    if mt.lamports > 0 {
        Err(InstructionError::Custom(0))
    } else {
        match spec_allocate_check(pre, to, space) {
            Err(e) => Err(e),
            Ok(_) => spec_transfer_check(pre, from, to, lamports),
        }
    }
}

/// All store entries except `i1` and `i2` are unchanged, and the store
/// keeps its length.
pub open spec fn spec_entries_unchanged_except(pre: Scope, post: Scope, i1: int, i2: int) -> bool {
    &&& post.spec_len() == pre.spec_len()
    &&& forall|i: int|
        0 <= i < pre.spec_len() && i != i1 && i != i2 ==> #[trigger] post.metas@[i]
            == pre.metas@[i]
}

/// The store transition of a successful `transfer`.
pub open spec fn spec_transfer_applied(
    pre: Scope,
    post: Scope,
    from: AccountInfo,
    to: AccountInfo,
    lamports: u64,
) -> bool {
    let fi = from.index as int;
    let ti = to.index as int;
    &&& spec_entries_unchanged_except(pre, post, fi, ti)
    &&& if fi == ti {
        post.metas@[fi] == pre.metas@[fi]
    } else {
        &&& post.metas@[fi].0 == pre.metas@[fi].0
        &&& post.metas@[fi].1.lamports == pre.metas@[fi].1.lamports - lamports
        &&& post.metas@[fi].1.owner == pre.metas@[fi].1.owner
        &&& post.metas@[fi].1.data == pre.metas@[fi].1.data
        &&& post.metas@[ti].0 == pre.metas@[ti].0
        &&& post.metas@[ti].1.lamports == pre.metas@[ti].1.lamports + lamports
        &&& post.metas@[ti].1.owner == pre.metas@[ti].1.owner
        &&& post.metas@[ti].1.data == pre.metas@[ti].1.data
    }
}

/// The store transition of a successful `create_account`: data allocated,
/// owner assigned, and the balance funded, as one unit.
pub open spec fn spec_create_account_applied(
    pre: Scope,
    post: Scope,
    from: AccountInfo,
    to: AccountInfo,
    lamports: u64,
    space: u64,
    owner: Pubkey,
) -> bool {
    let fi = from.index as int;
    let ti = to.index as int;
    &&& spec_entries_unchanged_except(pre, post, fi, ti)
    &&& post.metas@[ti].0 == pre.metas@[ti].0
    &&& post.metas@[ti].1.data@ == Seq::new(space as nat, |i: int| 0u8)
    &&& post.metas@[ti].1.owner@ == owner@
    &&& if fi == ti {
        post.metas@[ti].1.lamports == pre.metas@[ti].1.lamports
    } else {
        &&& post.metas@[ti].1.lamports == pre.metas@[ti].1.lamports + lamports
        &&& post.metas@[fi].0 == pre.metas@[fi].0
        &&& post.metas@[fi].1.lamports == pre.metas@[fi].1.lamports - lamports
        &&& post.metas@[fi].1.owner == pre.metas@[fi].1.owner
        &&& post.metas@[fi].1.data == pre.metas@[fi].1.data
    }
}

impl SystemProgramPackage {
    /// Fails unless at least `count` accounts were handed to the call.
    pub fn check_number_of_instruction_accounts(accounts: &Vec<AccountInfo>, count: usize) -> (r:
        Result<(), InstructionError>)
        ensures
            r is Ok <==> accounts@.len() >= count,
            r is Err ==> r == Err::<(), InstructionError>(InstructionError::NotEnoughAccountKeys),
    {
        if accounts.len() < count {
            return Err(InstructionError::NotEnoughAccountKeys);
        }
        Ok(())
    }

    /// Resizes an empty, system-owned, signing account to `space` zero
    /// bytes.
    pub fn allocate(info: &AccountInfo, space: u64, scope: &mut Scope) -> (r: Result<
        (),
        InstructionError,
    >)
        requires
            old(scope).spec_wf(),
            old(scope).spec_valid_info(*info),
        ensures
            final(scope).spec_wf(),
            spec_same_shape(*old(scope), *final(scope)),
            spec_log_extends(old(scope).receipt, final(scope).receipt),
            final(scope).spec_valid_info(*info),
            r == spec_allocate_check(*old(scope), *info, space),
            r is Err ==> final(scope).metas == old(scope).metas,
            r is Ok ==> {
                &&& spec_entries_unchanged_except(
                    *old(scope),
                    *final(scope),
                    info.index as int,
                    info.index as int,
                )
                &&& final(scope).metas@[info.index as int].0 == old(scope).metas@[info.index as int].0
                &&& final(scope).metas@[info.index as int].1.data@ == Seq::new(
                    space as nat,
                    |i: int| 0u8,
                )
                &&& final(scope).metas@[info.index as int].1.owner == old(scope).metas@[info.index as int].1.owner
                &&& final(scope).metas@[info.index as int].1.lamports == old(scope).metas@[info.index as int].1.lamports
            },
    {
        if !info.is_signer {
            scope.sol_log("Allocate: 'to' account must sign");
            return Err(InstructionError::MissingRequiredSignature);
        }
        let owner_now = scope.owner_at(info.index);
        let data_len = scope.data_len_at(info.index);
        if data_len != 0 || !is_system_program_id(&owner_now) {
            scope.sol_log("Allocate: account already in use");
            return Err(SystemError::AccountAlreadyInUse.to_instruction_error());
        }
        if space > MAX_PERMITTED_DATA_LENGTH {
            scope.sol_log("Allocate: requested space above the maximum");
            return Err(SystemError::InvalidAccountDataLength.to_instruction_error());
        }
        let zeros = zero_vec(space as usize);
        scope.set_data_at(info.index, zeros);
        Ok(())
    }

    /// Hands an account to a new owner; a no-op when the owner already
    /// matches, and otherwise only for a signing account.
    pub fn assign(info: &AccountInfo, owner: &Pubkey, scope: &mut Scope) -> (r: Result<
        (),
        InstructionError,
    >)
        requires
            old(scope).spec_wf(),
            old(scope).spec_valid_info(*info),
        ensures
            final(scope).spec_wf(),
            spec_same_shape(*old(scope), *final(scope)),
            spec_log_extends(old(scope).receipt, final(scope).receipt),
            final(scope).spec_valid_info(*info),
            r == spec_assign_check(*old(scope), *info, *owner),
            r is Err ==> final(scope).metas == old(scope).metas,
            r is Ok ==> {
                &&& spec_entries_unchanged_except(
                    *old(scope),
                    *final(scope),
                    info.index as int,
                    info.index as int,
                )
                &&& final(scope).metas@[info.index as int].0 == old(scope).metas@[info.index as int].0
                &&& final(scope).metas@[info.index as int].1.owner@ == owner@
                &&& final(scope).metas@[info.index as int].1.data == old(scope).metas@[info.index as int].1.data
                &&& final(scope).metas@[info.index as int].1.lamports == old(scope).metas@[info.index as int].1.lamports
            },
    {
        let owner_now = scope.owner_at(info.index);
        if owner_now.eq(owner) {
            proof {
                crate::pubkey::lemma_pubkey_view_injective(
                    old(scope).metas@[info.index as int].1.owner,
                    *owner,
                );
            }
            return Ok(());
        }
        if !info.is_signer {
            scope.sol_log("Assign: account must sign");
            return Err(InstructionError::MissingRequiredSignature);
        }
        scope.set_owner_at(info.index, owner);
        Ok(())
    }

    /// Moves lamports from a signing, writable, data-less source to a
    /// destination account.
    pub fn transfer(from: &AccountInfo, to: &AccountInfo, lamports: u64, scope: &mut Scope) -> (r:
        Result<(), InstructionError>)
        requires
            old(scope).spec_wf(),
            old(scope).spec_valid_info(*from),
            old(scope).spec_valid_info(*to),
        ensures
            final(scope).spec_wf(),
            spec_same_shape(*old(scope), *final(scope)),
            spec_log_extends(old(scope).receipt, final(scope).receipt),
            r == spec_transfer_check(*old(scope), *from, *to, lamports),
            r is Err ==> final(scope).metas == old(scope).metas,
            r is Ok ==> spec_transfer_applied(*old(scope), *final(scope), *from, *to, lamports),
    {
        if !from.is_signer {
            scope.sol_log("Transfer: `from` account must sign");
            return Err(InstructionError::MissingRequiredSignature);
        }
        if from.executable {
            return Err(InstructionError::ExecutableLamportChange);
        }
        let from_data_len = scope.data_len_at(from.index);
        if from_data_len != 0 {
            scope.sol_log("Transfer: `from` must not carry data");
            return Err(InstructionError::InvalidArgument);
        }
        if !from.is_writable {
            return Err(InstructionError::ReadonlyLamportChange);
        }
        let from_lamports = scope.lamports_at(from.index);
        if lamports > from_lamports {
            scope.sol_log("Transfer: insufficient lamports");
            return Err(SystemError::ResultWithNegativeLamports.to_instruction_error());
        }
        if from.index == to.index {
            return Ok(());
        }
        let to_lamports = scope.lamports_at(to.index);
        if lamports > u64::MAX - to_lamports {
            scope.sol_log("Transfer: destination balance would overflow");
            return Err(InstructionError::InvalidArgument);
        }
        scope.set_lamports_at(from.index, from_lamports - lamports);
        scope.set_lamports_at(to.index, to_lamports + lamports);
        Ok(())
    }

    /// Creates a funded account: allocation, assignment and funding
    /// transfer as one unit, applied only when every check passes.
    pub fn create_account(
        from: &AccountInfo,
        to: &AccountInfo,
        lamports: u64,
        space: u64,
        owner: &Pubkey,
        scope: &mut Scope,
    ) -> (r: Result<(), InstructionError>)
        requires
            old(scope).spec_wf(),
            old(scope).spec_valid_info(*from),
            old(scope).spec_valid_info(*to),
        ensures
            final(scope).spec_wf(),
            spec_same_shape(*old(scope), *final(scope)),
            spec_log_extends(old(scope).receipt, final(scope).receipt),
            r == spec_create_account_check(*old(scope), *from, *to, lamports, space),
            r is Err ==> final(scope).metas == old(scope).metas,
            r is Ok ==> spec_create_account_applied(
                *old(scope),
                *final(scope),
                *from,
                *to,
                lamports,
                space,
                *owner,
            ),
    {
        let to_lamports = scope.lamports_at(to.index);
        if to_lamports > 0 {
            scope.sol_log("Create Account: account already in use");
            return Err(SystemError::AccountAlreadyInUse.to_instruction_error());
        }
        // Check every sub-operation before applying any of them: the three
        // compose as one atomic unit.
        if !to.is_signer {
            scope.sol_log("Allocate: 'to' account must sign");
            return Err(InstructionError::MissingRequiredSignature);
        }
        let to_owner = scope.owner_at(to.index);
        let to_data_len = scope.data_len_at(to.index);
        if to_data_len != 0 || !is_system_program_id(&to_owner) {
            scope.sol_log("Allocate: account already in use");
            return Err(SystemError::AccountAlreadyInUse.to_instruction_error());
        }
        if space > MAX_PERMITTED_DATA_LENGTH {
            scope.sol_log("Allocate: requested space above the maximum");
            return Err(SystemError::InvalidAccountDataLength.to_instruction_error());
        }
        if !from.is_signer {
            scope.sol_log("Transfer: `from` account must sign");
            return Err(InstructionError::MissingRequiredSignature);
        }
        if from.executable {
            return Err(InstructionError::ExecutableLamportChange);
        }
        let from_data_len = scope.data_len_at(from.index);
        if from_data_len != 0 {
            scope.sol_log("Transfer: `from` must not carry data");
            return Err(InstructionError::InvalidArgument);
        }
        if !from.is_writable {
            return Err(InstructionError::ReadonlyLamportChange);
        }
        let from_lamports = scope.lamports_at(from.index);
        if lamports > from_lamports {
            scope.sol_log("Transfer: insufficient lamports");
            return Err(SystemError::ResultWithNegativeLamports.to_instruction_error());
        }
        let zeros = zero_vec(space as usize);
        scope.set_data_at(to.index, zeros);
        scope.set_owner_at(to.index, owner);
        if from.index != to.index {
            let from_now = scope.lamports_at(from.index);
            let to_now = scope.lamports_at(to.index);
            scope.set_lamports_at(from.index, from_now - lamports);
            scope.set_lamports_at(to.index, to_now + lamports);
        }
        Ok(())
    }
}


/// What the system program decides and does for one parsed instruction:
/// the result and the store transition, as a single relation.
pub open spec fn spec_system_post(
    pre: Scope,
    post: Scope,
    accounts: Seq<AccountInfo>,
    si: SystemInstruction,
    r: Result<(), InstructionError>,
) -> bool {
    match si {
        SystemInstruction::CreateAccount { lamports, space, owner } => {
            if accounts.len() < 2 {
                r == Err::<(), InstructionError>(InstructionError::NotEnoughAccountKeys)
                    && post.metas == pre.metas
            } else {
                &&& r == spec_create_account_check(pre, accounts[0], accounts[1], lamports, space)
                &&& (r is Err ==> post.metas == pre.metas)
                &&& (r is Ok ==> spec_create_account_applied(
                    pre,
                    post,
                    accounts[0],
                    accounts[1],
                    lamports,
                    space,
                    owner,
                ))
            }
        },
        SystemInstruction::Assign { owner } => {
            if accounts.len() < 1 {
                r == Err::<(), InstructionError>(InstructionError::NotEnoughAccountKeys)
                    && post.metas == pre.metas
            } else {
                &&& r == spec_assign_check(pre, accounts[0], owner)
                &&& (r is Err ==> post.metas == pre.metas)
                &&& (r is Ok ==> {
                    &&& spec_entries_unchanged_except(
                        pre,
                        post,
                        accounts[0].index as int,
                        accounts[0].index as int,
                    )
                    &&& post.metas@[accounts[0].index as int].0
                        == pre.metas@[accounts[0].index as int].0
                    &&& post.metas@[accounts[0].index as int].1.owner@ == owner@
                    &&& post.metas@[accounts[0].index as int].1.data
                        == pre.metas@[accounts[0].index as int].1.data
                    &&& post.metas@[accounts[0].index as int].1.lamports
                        == pre.metas@[accounts[0].index as int].1.lamports
                })
            }
        },
        SystemInstruction::Transfer { lamports } => {
            if accounts.len() < 2 {
                r == Err::<(), InstructionError>(InstructionError::NotEnoughAccountKeys)
                    && post.metas == pre.metas
            } else {
                &&& r == spec_transfer_check(pre, accounts[0], accounts[1], lamports)
                &&& (r is Err ==> post.metas == pre.metas)
                &&& (r is Ok ==> spec_transfer_applied(
                    pre,
                    post,
                    accounts[0],
                    accounts[1],
                    lamports,
                ))
            }
        },
        SystemInstruction::Allocate { space } => {
            if accounts.len() < 1 {
                r == Err::<(), InstructionError>(InstructionError::NotEnoughAccountKeys)
                    && post.metas == pre.metas
            } else {
                &&& r == spec_allocate_check(pre, accounts[0], space)
                &&& (r is Err ==> post.metas == pre.metas)
                &&& (r is Ok ==> {
                    &&& spec_entries_unchanged_except(
                        pre,
                        post,
                        accounts[0].index as int,
                        accounts[0].index as int,
                    )
                    &&& post.metas@[accounts[0].index as int].0
                        == pre.metas@[accounts[0].index as int].0
                    &&& post.metas@[accounts[0].index as int].1.data@ == Seq::new(
                        space as nat,
                        |i: int| 0u8,
                    )
                    &&& post.metas@[accounts[0].index as int].1.owner
                        == pre.metas@[accounts[0].index as int].1.owner
                    &&& post.metas@[accounts[0].index as int].1.lamports
                        == pre.metas@[accounts[0].index as int].1.lamports
                })
            }
        },
        _ => r == Err::<(), InstructionError>(InstructionError::GenericError) && post.metas
            == pre.metas,
    }
}

impl SystemProgramPackage {
    /// Decodes and runs one system instruction against the store.
    pub fn processor(
        accounts: &Vec<AccountInfo>,
        instruction_data: &Vec<u8>,
        scope: &mut Scope,
    ) -> (r: Result<(), InstructionError>)
        requires
            old(scope).spec_wf(),
            forall|i: int|
                0 <= i < accounts@.len() ==> old(scope).spec_valid_info(#[trigger] accounts@[i]),
        ensures
            final(scope).spec_wf(),
            spec_same_shape(*old(scope), *final(scope)),
            spec_log_extends(old(scope).receipt, final(scope).receipt),
            !SystemInstruction::spec_parses(instruction_data@) ==> r == Err::<
                (),
                InstructionError,
            >(InstructionError::InvalidInstructionData) && final(scope).metas == old(scope).metas,
            forall|si: SystemInstruction|
                (#[trigger] si.spec_bytes()).len() <= instruction_data@.len() && si.spec_bytes()
                    == instruction_data@.subrange(0, si.spec_bytes().len() as int)
                    ==> spec_system_post(*old(scope), *final(scope), accounts@, si, r),
    {
        let parsed = SystemInstruction::parse(instruction_data.as_slice());
        match parsed {
            None => {
                scope.sol_log("Invalid system instruction");
                proof {
                    assert forall|si: SystemInstruction|
                        (#[trigger] si.spec_bytes()).len() <= instruction_data@.len()
                            && si.spec_bytes() == instruction_data@.subrange(
                            0,
                            si.spec_bytes().len() as int,
                        ) implies spec_system_post(
                        *old(scope),
                        *scope,
                        accounts@,
                        si,
                        Err(InstructionError::InvalidInstructionData),
                    ) by {
                        let rest = instruction_data@.skip(si.spec_bytes().len() as int);
                        SystemInstruction::lemma_encoding_parses(si, rest);
                        assert(si.spec_bytes() + rest =~= instruction_data@);
                        assert(false);
                    }
                }
                Err(InstructionError::InvalidInstructionData)
            },
            Some(instruction) => {
                let ghost p = instruction;
                let r = match instruction {
                    SystemInstruction::CreateAccount { lamports, space, owner } => {
                        match Self::check_number_of_instruction_accounts(accounts, 2) {
                            Err(e) => Err(e),
                            Ok(_) => {
                                let from = accounts[0].clone();
                                let to = accounts[1].clone();
                                Self::create_account(&from, &to, lamports, space, &owner, scope)
                            },
                        }
                    },
                    SystemInstruction::Assign { owner } => {
                        match Self::check_number_of_instruction_accounts(accounts, 1) {
                            Err(e) => Err(e),
                            Ok(_) => {
                                let info = accounts[0].clone();
                                Self::assign(&info, &owner, scope)
                            },
                        }
                    },
                    SystemInstruction::Transfer { lamports } => {
                        match Self::check_number_of_instruction_accounts(accounts, 2) {
                            Err(e) => Err(e),
                            Ok(_) => {
                                let from = accounts[0].clone();
                                let to = accounts[1].clone();
                                Self::transfer(&from, &to, lamports, scope)
                            },
                        }
                    },
                    SystemInstruction::Allocate { space } => {
                        match Self::check_number_of_instruction_accounts(accounts, 1) {
                            Err(e) => Err(e),
                            Ok(_) => {
                                let info = accounts[0].clone();
                                Self::allocate(&info, space, scope)
                            },
                        }
                    },
                    _ => {
                        scope.sol_log("Unimplemented instruction");
                        Err(InstructionError::GenericError)
                    },
                };
                proof {
                    assert forall|si: SystemInstruction|
                        (#[trigger] si.spec_bytes()).len() <= instruction_data@.len()
                            && si.spec_bytes() == instruction_data@.subrange(
                            0,
                            si.spec_bytes().len() as int,
                        ) implies spec_system_post(
                        *old(scope),
                        *scope,
                        accounts@,
                        si,
                        r,
                    ) by {
                        crate::codec::lemma_parse_unique(instruction_data@, si, p);
                    }
                }
                r
            },
        }
    }

    /// The system program's entry point: runs the instruction and reports
    /// failures as program errors.
    pub fn execute(
        accounts: &Vec<AccountInfo>,
        instruction_data: &Vec<u8>,
        scope: &mut Scope,
    ) -> (r: ProgramResult)
        requires
            old(scope).spec_wf(),
            1 <= old(scope).spec_depth() <= crate::scope::MAX_CALL_DEPTH,
            forall|i: int|
                0 <= i < accounts@.len() ==> old(scope).spec_valid_info(#[trigger] accounts@[i]),
        ensures
            final(scope).spec_wf(),
            spec_same_shape(*old(scope), *final(scope)),
            spec_log_extends(old(scope).receipt, final(scope).receipt),
            final(scope).spec_depth() == old(scope).spec_depth(),
            final(scope).receipt.call_stack == old(scope).receipt.call_stack,
            final(scope).receipt.result == old(scope).receipt.result,
            !SystemInstruction::spec_parses(instruction_data@) ==> r == Err::<(), ProgramError>(
                ProgramError::InvalidInstructionData,
            ) && final(scope).metas == old(scope).metas,
            forall|si: SystemInstruction|
                (#[trigger] si.spec_bytes()).len() <= instruction_data@.len() && si.spec_bytes()
                    == instruction_data@.subrange(0, si.spec_bytes().len() as int) ==> exists|ir:
                    Result<(), InstructionError>|
                    spec_system_post(*old(scope), *final(scope), accounts@, si, ir) && r == (
                    match ir {
                        Ok(u) => Ok::<(), ProgramError>(()),
                        Err(e) => Err::<(), ProgramError>(spec_convert_instruction_error(e)),
                    }),
    {
        let res = Self::processor(accounts, instruction_data, scope);
        match res {
            Ok(_) => {
                proof {
                    assert forall|si: SystemInstruction|
                        (#[trigger] si.spec_bytes()).len() <= instruction_data@.len()
                            && si.spec_bytes() == instruction_data@.subrange(
                            0,
                            si.spec_bytes().len() as int,
                        ) implies exists|ir: Result<(), InstructionError>|
                        spec_system_post(*old(scope), *scope, accounts@, si, ir) && Ok::<
                            (),
                            ProgramError,
                        >(()) == (match ir {
                            Ok(u) => Ok::<(), ProgramError>(()),
                            Err(e) => Err::<(), ProgramError>(spec_convert_instruction_error(e)),
                        }) by {
                        let ir = Ok::<(), InstructionError>(());
                        assert(spec_system_post(*old(scope), *scope, accounts@, si, ir));
                    }
                }
                Ok(())
            },
            Err(e) => {
                let pe = convert_instruction_error(e);
                proof {
                    assert forall|si: SystemInstruction|
                        (#[trigger] si.spec_bytes()).len() <= instruction_data@.len()
                            && si.spec_bytes() == instruction_data@.subrange(
                            0,
                            si.spec_bytes().len() as int,
                        ) implies exists|ir: Result<(), InstructionError>|
                        spec_system_post(*old(scope), *scope, accounts@, si, ir) && Err::<
                            (),
                            ProgramError,
                        >(pe) == (match ir {
                            Ok(u) => Ok::<(), ProgramError>(()),
                            Err(e2) => Err::<(), ProgramError>(spec_convert_instruction_error(e2)),
                        }) by {
                        let ir = Err::<(), InstructionError>(e);
                        assert(spec_system_post(*old(scope), *scope, accounts@, si, ir));
                    }
                }
                Err(pe)
            },
        }
    }
}

} // verus!
