use crate::account::{Account, Meta};
use crate::account_info::AccountInfo;
use crate::codec::BorshCodec;
use crate::package::{Entrypoint, InlinePackage, Package};
use crate::program_ids::{
    associated_program_id, bpf_loader_id, spl_program_id, system_program_id, sysvar_program_id,
};
use crate::pubkey::Pubkey;
use crate::receipt::Receipt;
use crate::scope::Scope;
use vstd::prelude::*;

verus! {

broadcast use crate::pubkey::lemma_pubkey_len;

/// The top-level views: one per store entry, in order, under the
/// entry's own flags.
pub open spec fn spec_top_views(pre: Scope) -> Seq<AccountInfo> {
    Seq::new(
        pre.spec_len(),
        |i: int|
            AccountInfo {
                key: pre.metas@[i].0,
                index: i as usize,
                is_signer: pre.metas@[i].1.is_signer,
                is_writable: pre.metas@[i].1.is_writable,
                executable: pre.metas@[i].1.executable,
            },
    )
}

/// One top-level dispatch of the system program: some working set built
/// last-wins from the supplied records carried the call, the receipt's
/// result is the converted instruction outcome, and the returned
/// accounts are the working set's final state.
#[verifier::opaque]
pub open spec fn spec_system_toplevel(
    accounts: Seq<(Pubkey, crate::account::Meta)>,
    data: Seq<u8>,
    receipt: Receipt,
    out: Seq<Account>,
) -> bool {
    exists|pre: Scope, post: Scope|
        {
            &&& #[trigger] pre.spec_len() == #[trigger] post.spec_len()
            &&& pre.spec_len() == out.len()
            &&& (forall|i: int|
                0 <= i < pre.spec_len() ==> crate::scope::spec_entry_from_last(
                    #[trigger] pre.metas@[i],
                    accounts,
                ))
            &&& (forall|j: int|
                0 <= j < accounts.len() ==> crate::scope::spec_key_in(
                    (#[trigger] accounts[j]).0@,
                    pre.metas@,
                ))
            &&& (forall|i: int|
                0 <= i < post.spec_len() ==> {
                    &&& (#[trigger] out[i]).pubkey == post.metas@[i].0
                    &&& out[i].lamports == post.metas@[i].1.lamports
                    &&& out[i].owner == post.metas@[i].1.owner
                    &&& out[i].data == post.metas@[i].1.data
                })
            &&& (!crate::system_instruction::SystemInstruction::spec_parses(data)
                ==> receipt.result == Err::<(), crate::errors::ProgramError>(
                crate::errors::ProgramError::InvalidInstructionData,
            ) && post.metas == pre.metas)
            &&& (forall|si: crate::system_instruction::SystemInstruction|
                (#[trigger] si.spec_bytes()).len() <= data.len() && si.spec_bytes()
                    == data.subrange(0, si.spec_bytes().len() as int) ==> exists|
                    ir: Result<(), crate::errors::InstructionError>,
                |
                    crate::system_program::spec_system_post(
                        pre,
                        post,
                        spec_top_views(pre),
                        si,
                        ir,
                    ) && receipt.result == (match ir {
                        Ok(u) => Ok::<(), crate::errors::ProgramError>(()),
                        Err(e2) => Err::<(), crate::errors::ProgramError>(
                            crate::errors::spec_convert_instruction_error(e2),
                        ),
                    }))
        }
}

/// Whether some account in the list carries `key`.
pub open spec fn spec_account_key_in(key: Seq<u8>, accounts: Seq<Account>) -> bool {
    exists|i: int| 0 <= i < accounts.len() && key == (#[trigger] accounts[i]).pubkey@
}

/// A program identity paired with its executable behavior. A top-level
/// `invoke_with_bytes` builds a fresh scope over the supplied records,
/// pushes this program and dispatches into its package.
pub struct Program {
    pub pubkey: Pubkey,
    pub package: Package,
    pub owner: Pubkey,
}

impl Program {
    /// A program backed by one of the bundled inline modules.
    pub fn inline(entrypoint: Entrypoint, pubkey: Pubkey) -> (r: Program)
        ensures
            r.pubkey == pubkey,
            r.package == Package::Inline(InlinePackage { entrypoint }),
    {
        Program {
            pubkey,
            package: Package::Inline(InlinePackage::new(entrypoint)),
            owner: bpf_loader_id(),
        }
    }

    pub fn pubkey(&self) -> (r: &Pubkey)
        ensures
            r == self.pubkey,
    {
        &self.pubkey
    }

    /// The store record under which this program joins a working set.
    pub fn meta(&self) -> (r: (Pubkey, Meta))
        ensures
            r.0 == self.pubkey,
            r.1.is_signer == false,
            r.1.is_writable == false,
            r.1.executable == true,
            r.1.package == Some(self.package),
            r.1.data@.len() == 0,
    {
        (
            self.pubkey.clone(),
            Meta {
                is_signer: false,
                is_writable: false,
                executable: true,
                lamports: 0x1337,
                owner: self.owner.clone(),
                data: Vec::new(),
                package: Some(self.package),
            },
        )
    }

    /// A top-level call with an encodable instruction value.
    pub fn invoke_with_borsh<T: BorshCodec>(
        &self,
        instruction_data: &T,
        accounts: Vec<(Pubkey, Meta)>,
    ) -> (r: (Receipt, Vec<Account>))
        requires
            forall|j: int|
                0 <= j < accounts@.len() ==> ((#[trigger] accounts@[j]).1.executable
                    <==> accounts@[j].1.package is Some),
        ensures
            r.0.call_stack@.len() == 0,
            r.1@.len() <= accounts@.len(),
            forall|j: int|
                0 <= j < accounts@.len() ==> spec_account_key_in(
                    (#[trigger] accounts@[j]).0@,
                    r.1@,
                ),
            r.0.log_messages@.len() >= 2,
            r.0.log_messages@[0]@ == "Program invoked: "@ + crate::pubkey::base58_of(
                self.pubkey@,
            ),
            r.0.result is Ok ==> r.0.log_messages@.last()@ == "Program returned success"@,
            r.0.result matches Err(e) ==> r.0.log_messages@.last()@
                == "Program returned error: \""@ + e.spec_message() + "\""@,
            self.package == Package::System ==> r.0.return_data is None,
            self.package == Package::System ==> spec_system_toplevel(
                accounts@,
                instruction_data.spec_bytes(),
                r.0,
                r.1@,
            ),
    {
        let bytes = crate::codec::encode_to_vec(instruction_data);
        self.invoke_with_bytes(&bytes, accounts)
    }

    /// A top-level call: builds a fresh scope over the records, pushes this
    /// program, dispatches into its package with a view of every record,
    /// and hands back the receipt and the final account states.
    pub fn invoke_with_bytes(
        &self,
        instruction_data: &Vec<u8>,
        accounts: Vec<(Pubkey, Meta)>,
    ) -> (r: (Receipt, Vec<Account>))
        requires
            forall|j: int|
                0 <= j < accounts@.len() ==> ((#[trigger] accounts@[j]).1.executable
                    <==> accounts@[j].1.package is Some),
        ensures
            r.0.call_stack@.len() == 0,
            r.1@.len() <= accounts@.len(),
            forall|j: int|
                0 <= j < accounts@.len() ==> spec_account_key_in(
                    (#[trigger] accounts@[j]).0@,
                    r.1@,
                ),
            r.0.log_messages@.len() >= 2,
            r.0.log_messages@[0]@ == "Program invoked: "@ + crate::pubkey::base58_of(
                self.pubkey@,
            ),
            r.0.result is Ok ==> r.0.log_messages@.last()@ == "Program returned success"@,
            r.0.result matches Err(e) ==> r.0.log_messages@.last()@
                == "Program returned error: \""@ + e.spec_message() + "\""@,
            self.package == Package::System ==> r.0.return_data is None,
            self.package == Package::System ==> spec_system_toplevel(
                accounts@,
                instruction_data@,
                r.0,
                r.1@,
            ),
    {
        let ghost input = accounts@;
        let mut scope = Scope::new(accounts);
        let ghost store0 = scope.metas@;
        let infos = top_level_infos(&scope);
        scope.receipt.call_stack.push(self.pubkey.clone());
        scope.receipt.log_program_invoked(&self.pubkey);
        scope.receipt.return_data = None;
        let ghost pre_d = scope;
        let res = scope.dispatch_package(self.package, &self.pubkey, &infos, instruction_data);
        let ghost post_d = scope;
        match &res {
            Ok(_) => {
                scope.receipt.log_program_succeed();
            },
            Err(err) => {
                scope.receipt.log_program_failed(err);
            },
        }
        scope.receipt.call_stack.pop();
        scope.receipt.result = res;
        let ghost store = scope.metas@;
        let Scope { metas, receipt, settings: _settings } = scope;
        let accounts_out = into_accounts(metas);
        proof {
            assert forall|j: int| 0 <= j < input.len() implies spec_account_key_in(
                (#[trigger] input[j]).0@,
                accounts_out@,
            ) by {
                assert(crate::scope::spec_key_in(input[j].0@, store0));
                let w = choose|w: int|
                    0 <= w < store0.len() && input[j].0@ == (#[trigger] store0[w]).0@;
                assert(store[w].0 == store0[w].0);
                assert(accounts_out@[w].pubkey == store[w].0);
                assert(0 <= w < accounts_out@.len() && input[j].0@ == accounts_out@[w].pubkey@);
            }
        }
        let r_pair = (receipt, accounts_out);
        proof {
            if self.package == Package::System {
                reveal(spec_system_toplevel);
                assert(pre_d.metas@ == store0);
                assert(post_d.metas@ == store);
                assert(infos@ =~= spec_top_views(pre_d)) by {
                    assert forall|i: int| 0 <= i < infos@.len() implies infos@[i]
                        == spec_top_views(pre_d)[i] by {
                        crate::pubkey::lemma_pubkey_view_injective(
                            infos@[i].key,
                            pre_d.metas@[i].0,
                        );
                        assert(infos@[i].index == i && infos@[i].is_signer
                            == pre_d.metas@[i].1.is_signer && infos@[i].is_writable
                            == pre_d.metas@[i].1.is_writable && infos@[i].executable
                            == pre_d.metas@[i].1.executable);
                    }
                }
                assert forall|si: crate::system_instruction::SystemInstruction|
                    (#[trigger] si.spec_bytes()).len() <= instruction_data@.len()
                        && si.spec_bytes() == instruction_data@.subrange(
                        0,
                        si.spec_bytes().len() as int,
                    ) implies exists|ir: Result<(), crate::errors::InstructionError>|
                    crate::system_program::spec_system_post(
                        pre_d,
                        post_d,
                        spec_top_views(pre_d),
                        si,
                        ir,
                    ) && r_pair.0.result == (match ir {
                        Ok(u) => Ok::<(), crate::errors::ProgramError>(()),
                        Err(e2) => Err::<(), crate::errors::ProgramError>(
                            crate::errors::spec_convert_instruction_error(e2),
                        ),
                    }) by {
                    let ir = choose|ir: Result<(), crate::errors::InstructionError>|
                        crate::system_program::spec_system_post(pre_d, post_d, infos@, si, ir)
                            && res == (match ir {
                            Ok(u) => Ok::<(), crate::errors::ProgramError>(()),
                            Err(e2) => Err::<(), crate::errors::ProgramError>(
                                crate::errors::spec_convert_instruction_error(e2),
                            ),
                        });
                    assert(crate::system_program::spec_system_post(
                        pre_d,
                        post_d,
                        spec_top_views(pre_d),
                        si,
                        ir,
                    ));
                }
                assert(spec_system_toplevel(input, instruction_data@, r_pair.0, r_pair.1@));
            }
        }
        r_pair
    }

    /// The built-in system program.
    pub fn system_program() -> (r: Program)
        ensures
            r.pubkey@ == crate::program_ids::SYSTEM_PROGRAM_ID_BYTES@,
            r.package == Package::System,
    {
        Program { pubkey: system_program_id(), package: Package::System, owner: bpf_loader_id() }
    }

    /// The bundled token program.
    pub fn token_program() -> (r: Program)
        ensures
            r.pubkey@ == crate::program_ids::SPL_PROGRAM_ID_BYTES@,
            r.package == Package::Inline(InlinePackage { entrypoint: Entrypoint::Token }),
    {
        Program::inline(Entrypoint::Token, spl_program_id())
    }

    /// The bundled associated-token-account program.
    pub fn associated_token_program() -> (r: Program)
        ensures
            r.pubkey@ == crate::program_ids::ASSOCIATED_PROGRAM_ID_BYTES@,
            r.package == Package::Inline(InlinePackage { entrypoint: Entrypoint::AssociatedToken }),
    {
        Program::inline(Entrypoint::AssociatedToken, associated_program_id())
    }

    /// The sysvar pseudo-program: addressable, never meaningfully invoked.
    pub fn sysvar_program() -> (r: Program)
        ensures
            r.pubkey@ == crate::program_ids::SYSVAR_PROGRAM_ID_BYTES@,
            r.package == Package::System,
    {
        Program { pubkey: sysvar_program_id(), package: Package::System, owner: bpf_loader_id() }
    }
}

/// One view per store entry, in store order, under the entry's own
/// top-level flags.
pub fn top_level_infos(scope: &Scope) -> (r: Vec<AccountInfo>)
    ensures
        r@.len() == scope.spec_len(),
        forall|i: int| 0 <= i < r@.len() ==> scope.spec_valid_info(#[trigger] r@[i]),
        forall|i: int|
            0 <= i < r@.len() ==> (#[trigger] r@[i]).index == i && r@[i].is_signer
                == scope.metas@[i].1.is_signer && r@[i].is_writable
                == scope.metas@[i].1.is_writable,
{
    let n = scope.metas.len();
    let mut out: Vec<AccountInfo> = Vec::new();
    let mut i: usize = 0;
    while i < n
        invariant
            n == scope.spec_len(),
            0 <= i <= n,
            out@.len() == i,
            forall|j: int| 0 <= j < i ==> scope.spec_valid_info(#[trigger] out@[j]),
            forall|j: int|
                0 <= j < i ==> (#[trigger] out@[j]).index == j && out@[j].is_signer
                    == scope.metas@[j].1.is_signer && out@[j].is_writable
                    == scope.metas@[j].1.is_writable,
        decreases n - i,
    {
        let key: Pubkey = scope.metas[i].0.clone();
        let entry_signer = scope.metas[i].1.is_signer;
        let entry_writable = scope.metas[i].1.is_writable;
        let entry_executable = scope.metas[i].1.executable;
        out.push(
            AccountInfo {
                key,
                index: i,
                is_signer: entry_signer,
                is_writable: entry_writable,
                executable: entry_executable,
            },
        );
        i += 1;
    }
    out
}

/// The final account states of a store, in store order.
pub fn into_accounts(metas: Vec<(Pubkey, Meta)>) -> (r: Vec<Account>)
    ensures
        r@.len() == metas@.len(),
        forall|i: int|
            0 <= i < metas@.len() ==> {
                &&& (#[trigger] r@[i]).pubkey == metas@[i].0
                &&& r@[i].lamports == metas@[i].1.lamports
                &&& r@[i].owner == metas@[i].1.owner
                &&& r@[i].data == metas@[i].1.data
            },
{
    let ghost all = metas@;
    let mut out: Vec<Account> = Vec::new();
    let mut source = metas;
    proof {
        assert(source@ =~= all.subrange(all.len() - source@.len(), all.len() as int));
    }
    while source.len() > 0
        invariant
            source@.len() <= all.len(),
            source@ == all.subrange(all.len() - source@.len(), all.len() as int),
            out@.len() == all.len() - source@.len(),
            forall|i: int|
                0 <= i < out@.len() ==> {
                    &&& (#[trigger] out@[i]).pubkey == all[i].0
                    &&& out@[i].lamports == all[i].1.lamports
                    &&& out@[i].owner == all[i].1.owner
                    &&& out@[i].data == all[i].1.data
                },
        decreases source@.len(),
    {
        let ghost processed = all.len() - source@.len();
        let entry = source.remove(0);
        proof {
            assert(entry == all[processed]);
            assert(source@ =~= all.subrange(all.len() - source@.len(), all.len() as int));
        }
        let (key, meta) = entry;
        out.push(Account { pubkey: key, lamports: meta.lamports, owner: meta.owner, data: meta.data });
    }
    out
}

/// Looks an account up by id in a result list.
pub fn find_account<'a>(accounts: &'a Vec<Account>, key: &Pubkey) -> (r: Option<&'a Account>)
    ensures
        match r {
            Some(a) => exists|i: int|
                0 <= i < accounts@.len() && accounts@[i] == *a && (#[trigger] accounts@[i]).pubkey@
                    == key@,
            None => forall|i: int|
                0 <= i < accounts@.len() ==> (#[trigger] accounts@[i]).pubkey@ != key@,
        },
{
    let n = accounts.len();
    let mut i: usize = 0;
    while i < n
        invariant
            n == accounts@.len(),
            0 <= i <= n,
            forall|j: int| 0 <= j < i ==> (#[trigger] accounts@[j]).pubkey@ != key@,
        decreases n - i,
    {
        if accounts[i].pubkey.eq(key) {
            return Some(&accounts[i]);
        }
        i += 1;
    }
    None
}

} // verus!
