use crate::account_info::AccountInfo;
use crate::codec::BorshCodec;
use crate::errors::{ProgramError, ProgramResult};
use crate::instruction::{AccountMeta, Instruction};
use crate::package::{Entrypoint, Package};
use crate::pubkey::{spec_create_program_address, Pubkey};
use crate::scope::{spec_same_shape, Scope, MAX_CALL_DEPTH};
use vstd::prelude::*;
use vstd::string::StringExecFns;

verus! {

broadcast use crate::pubkey::lemma_pubkey_len;

/// The index of the first view in `infos` that carries `key`.
pub open spec fn spec_find_info(infos: Seq<AccountInfo>, key: Seq<u8>) -> Option<int>
    decreases infos.len(),
{
    if infos.len() == 0 {
        None
    } else if infos.first().key@ == key {
        Some(0)
    } else {
        match spec_find_info(infos.drop_first(), key) {
            Some(i) => Some(i + 1),
            None => None,
        }
    }
}

/// A found index is in range and carries the key.
pub proof fn lemma_find_info_valid(infos: Seq<AccountInfo>, key: Seq<u8>)
    ensures
        spec_find_info(infos, key) matches Some(i) ==> 0 <= i < infos.len() && infos[i].key@
            == key,
    decreases infos.len(),
{
    if infos.len() > 0 && infos.first().key@ != key {
        lemma_find_info_valid(infos.drop_first(), key);
    }
}

/// The derived key that `signers_seeds` grants signing authority for, if
/// the derivation succeeds.
pub open spec fn spec_signed_key(seeds: Seq<Seq<Seq<u8>>>, caller: Seq<u8>) -> Option<Seq<u8>> {
    if seeds.len() == 0 {
        None
    } else {
        match spec_create_program_address(seeds[0], caller) {
            Ok(h) => Some(h),
            Err(_) => None,
        }
    }
}

/// Whether one declared account may be handed to the callee: it must be
/// present in the caller's views, a writable request needs a writable
/// parent view, and a signer request needs a signing parent view or the
/// seed-derived key.
pub open spec fn spec_account_ok(
    infos: Seq<AccountInfo>,
    m: AccountMeta,
    signed: Option<Seq<u8>>,
) -> bool {
    match spec_find_info(infos, m.pubkey@) {
        None => false,
        Some(i) => {
            &&& (m.is_signer && !infos[i].is_signer ==> (signed matches Some(s) && s == m.pubkey@))
            &&& (m.is_writable ==> infos[i].is_writable)
        },
    }
}

/// Whether every declared account may be handed to the callee.
pub open spec fn spec_views_ok(
    infos: Seq<AccountInfo>,
    metas: Seq<AccountMeta>,
    signed: Option<Seq<u8>>,
) -> bool {
    forall|k: int| 0 <= k < metas.len() ==> spec_account_ok(infos, #[trigger] metas[k], signed)
}

/// The error one inadmissible declaration draws, checks in order: a
/// missing account, then signer escalation, then writable escalation.
pub open spec fn spec_account_error(
    infos: Seq<AccountInfo>,
    m: AccountMeta,
    signed: Option<Seq<u8>>,
) -> Option<ProgramError> {
    match spec_find_info(infos, m.pubkey@) {
        None => Some(ProgramError::NotEnoughAccountKeys),
        Some(i) => if m.is_signer && !infos[i].is_signer && !(signed matches Some(s) && s
            == m.pubkey@) {
            Some(ProgramError::MissingRequiredSignature)
        } else if m.is_writable && !infos[i].is_writable {
            Some(ProgramError::InvalidInstructionData)
        } else {
            None
        },
    }
}

/// The error of the first inadmissible declaration, scanning in order.
pub open spec fn spec_views_error(
    infos: Seq<AccountInfo>,
    metas: Seq<AccountMeta>,
    signed: Option<Seq<u8>>,
) -> Option<ProgramError>
    decreases metas.len(),
{
    if metas.len() == 0 {
        None
    } else {
        match spec_account_error(infos, metas.first(), signed) {
            Some(e) => Some(e),
            None => spec_views_error(infos, metas.drop_first(), signed),
        }
    }
}

/// A declaration is admissible exactly when it draws no error.
pub proof fn lemma_account_error_none_iff_ok(
    infos: Seq<AccountInfo>,
    m: AccountMeta,
    signed: Option<Seq<u8>>,
)
    ensures
        spec_account_error(infos, m, signed) is None <==> spec_account_ok(infos, m, signed),
{
}

/// A declaration list is admissible exactly when no declaration draws an
/// error.
pub proof fn lemma_views_error_none_iff_ok(
    infos: Seq<AccountInfo>,
    metas: Seq<AccountMeta>,
    signed: Option<Seq<u8>>,
)
    ensures
        spec_views_error(infos, metas, signed) is None <==> spec_views_ok(infos, metas, signed),
    decreases metas.len(),
{
    if metas.len() == 0 {
    } else {
        lemma_account_error_none_iff_ok(infos, metas.first(), signed);
        lemma_views_error_none_iff_ok(infos, metas.drop_first(), signed);
        if spec_account_error(infos, metas.first(), signed) is None {
            if spec_views_ok(infos, metas.drop_first(), signed) {
                assert forall|k: int| 0 <= k < metas.len() implies spec_account_ok(
                    infos,
                    #[trigger] metas[k],
                    signed,
                ) by {
                    if k == 0 {
                    } else {
                        assert(spec_account_ok(infos, metas.drop_first()[k - 1], signed));
                        assert(metas.drop_first()[k - 1] == metas[k]);
                    }
                }
            }
            if spec_views_ok(infos, metas, signed) {
                assert forall|k: int| 0 <= k < metas.drop_first().len() implies spec_account_ok(
                    infos,
                    #[trigger] metas.drop_first()[k],
                    signed,
                ) by {
                    assert(spec_account_ok(infos, metas[k + 1], signed));
                    assert(metas.drop_first()[k] == metas[k + 1]);
                }
            }
        } else {
            assert(!spec_account_ok(infos, metas.first(), signed));
            assert(metas[0] == metas.first());
        }
    }
}

/// Whether the target program can be resolved: it stands among the
/// caller's views and is executable.
pub open spec fn spec_resolves(infos: Seq<AccountInfo>, program_id: Seq<u8>) -> bool {
    match spec_find_info(infos, program_id) {
        None => false,
        Some(i) => infos[i].executable,
    }
}

/// The package behind the call's target program: present exactly when
/// the target stands among the caller's views as an executable account.
pub open spec fn spec_resolved_package(
    pre: Scope,
    infos: Seq<AccountInfo>,
    program_id: Seq<u8>,
) -> Option<Package> {
    match spec_find_info(infos, program_id) {
        None => None,
        Some(i) => if infos[i].executable && infos[i].index < pre.spec_len() {
            pre.metas@[infos[i].index as int].1.package
        } else {
            None
        },
    }
}

/// The guard one cross-program call runs before dispatch, in order:
/// resolve the program, derive the seed key, match the declared accounts
/// and their privileges, and bound the depth. `None` means the call
/// proceeds to dispatch.
pub open spec fn spec_precheck(
    pre: Scope,
    instruction: Instruction,
    infos: Seq<AccountInfo>,
    seeds: Seq<Seq<Seq<u8>>>,
) -> Option<ProgramError> {
    let caller = pre.receipt.call_stack@.last()@;
    if !spec_resolves(infos, instruction.program_id@) {
        Some(ProgramError::InvalidInstructionData)
    } else if seeds.len() > 0 && spec_create_program_address(seeds[0], caller) is Err {
        Some(ProgramError::InvalidSeeds)
    } else {
        match spec_views_error(infos, instruction.accounts@, spec_signed_key(seeds, caller)) {
            Some(e) => Some(e),
            None => if pre.spec_depth() >= MAX_CALL_DEPTH as nat {
                Some(ProgramError::CallDepthExceeded)
            } else {
                None
            },
        }
    }
}

/// The log line a failed guard appends, matching `spec_precheck`'s case.
pub open spec fn spec_precheck_line(
    pre: Scope,
    instruction: Instruction,
    infos: Seq<AccountInfo>,
    seeds: Seq<Seq<Seq<u8>>>,
) -> Seq<char> {
    let caller = pre.receipt.call_stack@.last()@;
    if !spec_resolves(infos, instruction.program_id@) {
        "Missing Program"@
    } else if seeds.len() > 0 && spec_create_program_address(seeds[0], caller) is Err {
        "Invalid Seeds"@
    } else {
        match spec_views_error(infos, instruction.accounts@, spec_signed_key(seeds, caller)) {
            Some(ProgramError::NotEnoughAccountKeys) => "Missing Account"@,
            Some(ProgramError::MissingRequiredSignature) => "Signer Privilege escalated"@,
            Some(_) => "Writable Privilege escalated"@,
            None => "Call Stack depth exceeded"@,
        }
    }
}

/// The views the callee receives, fully determined by the declarations
/// and the caller's views.
pub open spec fn spec_child_views(infos: Seq<AccountInfo>, metas: Seq<AccountMeta>) -> Seq<
    AccountInfo,
> {
    Seq::new(
        metas.len(),
        |k: int|
            {
                let i = spec_find_info(infos, metas[k].pubkey@)->Some_0;
                AccountInfo {
                    key: metas[k].pubkey,
                    index: infos[i].index,
                    is_signer: metas[k].is_signer,
                    is_writable: metas[k].is_writable,
                    executable: infos[i].executable,
                }
            },
    )
}

/// Whether every callee view addresses a rent-exempt entry of the store.
pub open spec fn spec_gate_passes(post: Scope, views: Seq<AccountInfo>) -> bool {
    forall|k: int|
        0 <= k < views.len() ==> post.spec_rent_exempt_entry((#[trigger] views[k]).index as int)
}

/// Looks up the first view carrying `key`.
pub fn find_first_info(infos: &Vec<AccountInfo>, key: &Pubkey) -> (r: Option<usize>)
    ensures
        match r {
            Some(i) => spec_find_info(infos@, key@) == Some(i as int),
            None => spec_find_info(infos@, key@) is None,
        },
{
    let n = infos.len();
    let mut i: usize = 0;
    proof {
        assert(infos@.skip(0) =~= infos@);
    }
    while i < n
        invariant
            n == infos@.len(),
            0 <= i <= n,
            spec_find_info(infos@, key@) == match spec_find_info(infos@.skip(i as int), key@) {
                Some(j) => Some(j + i),
                None => None::<int>,
            },
        decreases n - i,
    {
        let entry_key: &Pubkey = &infos[i].key;
        proof {
            assert(infos@.skip(i as int).first() == infos@[i as int]);
        }
        if entry_key.eq(key) {
            return Some(i);
        }
        proof {
            assert(infos@.skip(i as int).drop_first() =~= infos@.skip(i + 1));
        }
        i += 1;
    }
    proof {
        assert(infos@.skip(n as int).len() == 0);
    }
    None
}

impl Scope {
    /// Builds the callee's views from the instruction's declarations,
    /// enforcing the privilege rules: succeeds exactly when every declared
    /// account is present in the caller's views and asks for no privilege
    /// its parent view lacks, except signer privilege covered by the
    /// seed-derived key.
    pub fn build_child_views(
        &self,
        metas: &Vec<AccountMeta>,
        account_infos: &Vec<AccountInfo>,
        signed: &Option<Pubkey>,
    ) -> (r: Result<Vec<AccountInfo>, ProgramError>)
        requires
            self.spec_wf(),
            forall|i: int|
                0 <= i < account_infos@.len() ==> self.spec_valid_info(
                    #[trigger] account_infos@[i],
                ),
        ensures
            r is Ok <==> spec_views_ok(
                account_infos@,
                metas@,
                match signed {
                    Some(s) => Some(s@),
                    None => None,
                },
            ),
            r matches Ok(views) ==> {
                &&& views@ == spec_child_views(account_infos@, metas@)
                &&& views@.len() == metas@.len()
                &&& forall|k: int|
                    0 <= k < metas@.len() ==> {
                        let i = spec_find_info(account_infos@, metas@[k].pubkey@)->Some_0;
                        &&& (#[trigger] views@[k]).key == metas@[k].pubkey
                        &&& views@[k].index == account_infos@[i].index
                        &&& views@[k].is_signer == metas@[k].is_signer
                        &&& views@[k].is_writable == metas@[k].is_writable
                        &&& self.spec_valid_info(views@[k])
                    }
            },
            r matches Err(e) ==> spec_views_error(
                account_infos@,
                metas@,
                match signed {
                    Some(s) => Some(s@),
                    None => None,
                },
            ) == Some(e),
    {
        let ghost signed_spec: Option<Seq<u8>> = match signed {
            Some(s) => Some(s@),
            None => None,
        };
        let n = metas.len();
        let mut views: Vec<AccountInfo> = Vec::new();
        let mut k: usize = 0;
        proof {
            assert(metas@.skip(0) =~= metas@);
        }
        while k < n
            invariant
                n == metas@.len(),
                0 <= k <= n,
                spec_views_error(account_infos@, metas@, signed_spec) == spec_views_error(
                    account_infos@,
                    metas@.skip(k as int),
                    signed_spec,
                ),
                self.spec_wf(),
                forall|i: int|
                    0 <= i < account_infos@.len() ==> self.spec_valid_info(
                        #[trigger] account_infos@[i],
                    ),
                signed_spec == (match signed {
                    Some(s) => Some(s@),
                    None => None::<Seq<u8>>,
                }),
                views@.len() == k,
                forall|j: int|
                    0 <= j < k ==> spec_account_ok(account_infos@, #[trigger] metas@[j], signed_spec),
                forall|j: int|
                    0 <= j < k ==> {
                        let i = spec_find_info(account_infos@, metas@[j].pubkey@)->Some_0;
                        &&& (#[trigger] views@[j]).key == metas@[j].pubkey
                        &&& views@[j].index == account_infos@[i].index
                        &&& views@[j].is_signer == metas@[j].is_signer
                        &&& views@[j].is_writable == metas@[j].is_writable
                        &&& views@[j].executable == account_infos@[i].executable
                        &&& self.spec_valid_info(views@[j])
                    },
            decreases n - k,
        {
            let meta = &metas[k];
            proof {
                assert(metas@.skip(k as int).first() == metas@[k as int]);
            }
            let found = find_first_info(account_infos, &meta.pubkey);
            match found {
                None => {
                    proof {
                        assert(spec_account_error(account_infos@, metas@[k as int], signed_spec)
                            == Some(ProgramError::NotEnoughAccountKeys));
                    }
                    return Err(ProgramError::NotEnoughAccountKeys);
                },
                Some(i) => {
                    proof {
                        lemma_find_info_valid(account_infos@, metas@[k as int].pubkey@);
                    }
                    let parent = &account_infos[i];
                    if meta.is_signer && !parent.is_signer {
                        let authorized: bool = match signed {
                            Some(s) => s.eq(&meta.pubkey),
                            None => false,
                        };
                        if !authorized {
                            proof {
                                assert(spec_account_error(
                                    account_infos@,
                                    metas@[k as int],
                                    signed_spec,
                                ) == Some(ProgramError::MissingRequiredSignature));
                            }
                            return Err(ProgramError::MissingRequiredSignature);
                        }
                    }
                    if meta.is_writable && !parent.is_writable {
                        proof {
                            assert(spec_account_error(
                                account_infos@,
                                metas@[k as int],
                                signed_spec,
                            ) == Some(ProgramError::InvalidInstructionData));
                        }
                        return Err(ProgramError::InvalidInstructionData);
                    }
                    let child = AccountInfo {
                        key: meta.pubkey.clone(),
                        index: parent.index,
                        is_signer: meta.is_signer,
                        is_writable: meta.is_writable,
                        executable: parent.executable,
                    };
                    views.push(child);
                },
            }
            proof {
                assert(spec_account_error(account_infos@, metas@[k as int], signed_spec)
                    is None);
                assert(metas@.skip(k as int).drop_first() =~= metas@.skip(k + 1));
            }
            k += 1;
        }
        proof {
            assert(metas@.skip(n as int).len() == 0);
            lemma_views_error_none_iff_ok(account_infos@, metas@, signed_spec);
            let cv = spec_child_views(account_infos@, metas@);
            assert forall|j: int| 0 <= j < n implies views@[j] == cv[j] by {
                let i = spec_find_info(account_infos@, metas@[j].pubkey@)->Some_0;
                assert(views@[j].key == metas@[j].pubkey);
                assert(views@[j].index == account_infos@[i].index);
                assert(views@[j].executable == account_infos@[i].executable);
            }
            assert(views@ =~= cv);
        }
        Ok(views)
    }

    /// One cross-program call: resolves the target, derives the seed key,
    /// checks privileges and depth, then dispatches, runs the rent gate
    /// for the system program, and records the outcome. The working set's
    /// shape, the call stack and the terminal result always come back as
    /// they were.
    #[verifier::spinoff_prover]
    #[verifier::rlimit(100)]
    pub fn invoke_signed_unchecked(
        &mut self,
        instruction: &Instruction,
        account_infos: &Vec<AccountInfo>,
        signers_seeds: &Vec<Vec<Vec<u8>>>,
    ) -> (r: ProgramResult)
        requires
            old(self).spec_wf(),
            1 <= old(self).spec_depth() <= MAX_CALL_DEPTH,
            forall|i: int|
                0 <= i < account_infos@.len() ==> old(self).spec_valid_info(
                    #[trigger] account_infos@[i],
                ),
        ensures
            final(self).spec_wf(),
            spec_same_shape(*old(self), *final(self)),
            final(self).spec_depth() == old(self).spec_depth(),
            final(self).receipt.call_stack@ == old(self).receipt.call_stack@,
            final(self).receipt.result == old(self).receipt.result,
            crate::receipt::spec_log_prefix(old(self).receipt, final(self).receipt),
            spec_precheck(*old(self), *instruction, account_infos@, signers_seeds.deep_view())
                matches Some(e) ==> r == Err::<(), ProgramError>(e) && final(self).metas == old(self).metas && final(self).receipt.return_data == old(self).receipt.return_data && final(self).receipt.log_messages@.len() == old(self).receipt.log_messages@.len() + 1 && final(self).receipt.log_messages@.last()@ == spec_precheck_line(
                *old(self),
                *instruction,
                account_infos@,
                signers_seeds.deep_view(),
            ),
            spec_precheck(*old(self), *instruction, account_infos@, signers_seeds.deep_view())
                is None ==> ({
                let views = spec_child_views(account_infos@, instruction.accounts@);
                let pre_logs = old(self).receipt.log_messages@;
                let logs = final(self).receipt.log_messages@;
                &&& logs.len() >= pre_logs.len() + 2
                &&& logs[pre_logs.len() as int]@ == "Program invoked: "@
                    + crate::pubkey::base58_of(instruction.program_id@)
                &&& (r is Ok ==> logs.last()@ == "Program returned success"@)
                &&& (r matches Err(e) ==> logs.last()@ == "Program returned error: \""@
                    + e.spec_message() + "\""@)
                &&& final(self).receipt.return_data is None
                &&& (spec_resolved_package(*old(self), account_infos@, instruction.program_id@)
                    == Some(Package::System) ==> {
                    &&& (!spec_gate_passes(*final(self), views) ==> r == Err::<(), ProgramError>(
                        ProgramError::AccountNotRentExempt,
                    ))
                    &&& (!crate::system_instruction::SystemInstruction::spec_parses(
                        instruction.data@,
                    ) ==> final(self).metas == old(self).metas && (spec_gate_passes(
                        *final(self),
                        views,
                    ) ==> r == Err::<(), ProgramError>(ProgramError::InvalidInstructionData)))
                    &&& (forall|si: crate::system_instruction::SystemInstruction|
                        (#[trigger] si.spec_bytes()).len() <= instruction.data@.len()
                            && si.spec_bytes() == instruction.data@.subrange(
                            0,
                            si.spec_bytes().len() as int,
                        ) ==> exists|ir: Result<(), crate::errors::InstructionError>|
                            crate::system_program::spec_system_post(
                                *old(self),
                                *final(self),
                                views,
                                si,
                                ir,
                            ) && (spec_gate_passes(*final(self), views) ==> r == (match ir {
                                Ok(u) => Ok::<(), ProgramError>(()),
                                Err(e2) => Err::<(), ProgramError>(
                                    crate::errors::spec_convert_instruction_error(e2),
                                ),
                            })))
                })
            }),
        decreases 4 - old(self).spec_depth(), 0int,
    {
        // Step 1: resolve the target program among the caller's views.
        let ghost seeds_spec = signers_seeds.deep_view();
        let program_idx = find_first_info(account_infos, &instruction.program_id);
        let package: Package;
        match program_idx {
            None => {
                self.push_log_line("Missing Program");
                return Err(ProgramError::InvalidInstructionData);
            },
            Some(i) => {
                proof {
                    lemma_find_info_valid(account_infos@, instruction.program_id@);
                }
                let info = &account_infos[i];
                if !info.executable {
                    self.push_log_line("Missing Program");
                    return Err(ProgramError::InvalidInstructionData);
                }
                match self.package_at(info.index) {
                    Some(p) => {
                        package = p;
                        proof {
                            assert(spec_resolved_package(
                                *old(self),
                                account_infos@,
                                instruction.program_id@,
                            ) == Some(package));
                        }
                    },
                    None => {
                        proof {
                            assert(false);
                        }
                        return Err(ProgramError::InvalidInstructionData);
                    },
                }
            },
        }
        // Step 2: the seed-derived signing key, if seeds were supplied.
        let mut signed: Option<Pubkey> = None;
        if signers_seeds.len() > 0 {
            let caller = self.get_program_id();
            proof {
                assert(seeds_spec[0] =~= signers_seeds@[0].deep_view());
            }
            match Pubkey::create_program_address(&signers_seeds[0], &caller) {
                Ok(generated_key) => {
                    signed = Some(generated_key);
                },
                Err(_) => {
                    self.push_log_line("Invalid Seeds");
                    return Err(ProgramError::InvalidSeeds);
                },
            }
        }
        proof {
            let caller = old(self).receipt.call_stack@.last()@;
            assert(spec_signed_key(seeds_spec, caller) == (match signed {
                Some(s) => Some(s@),
                None => None::<Seq<u8>>,
            }));
        }
        // Step 3: match the declared accounts and check privileges.
        let views = match self.build_child_views(&instruction.accounts, account_infos, &signed) {
            Ok(v) => v,
            Err(e) => {
                match e {
                    ProgramError::NotEnoughAccountKeys => {
                        self.push_log_line("Missing Account");
                    },
                    ProgramError::MissingRequiredSignature => {
                        self.push_log_line("Signer Privilege escalated");
                    },
                    _ => {
                        self.push_log_line("Writable Privilege escalated");
                    },
                }
                return Err(e);
            },
        };
        // Step 4: the depth bound.
        if self.receipt.call_stack.len() >= MAX_CALL_DEPTH {
            proof {
                let caller = old(self).receipt.call_stack@.last()@;
                lemma_views_error_none_iff_ok(
                    account_infos@,
                    instruction.accounts@,
                    spec_signed_key(seeds_spec, caller),
                );
            }
            self.push_log_line("Call Stack depth exceeded");
            return Err(ProgramError::CallDepthExceeded);
        }
        proof {
            let caller = old(self).receipt.call_stack@.last()@;
            lemma_views_error_none_iff_ok(
                account_infos@,
                instruction.accounts@,
                spec_signed_key(seeds_spec, caller),
            );
            assert(spec_precheck(*old(self), *instruction, account_infos@, seeds_spec) is None);
        }
        // Step 5: push, log, clear return data, dispatch.
        let ghost pre_stack = self.receipt.call_stack@;
        let ghost pre_logs = old(self).receipt.log_messages@;
        self.receipt.call_stack.push(instruction.program_id.clone());
        self.receipt.log_program_invoked(&instruction.program_id);
        self.receipt.return_data = None;
        let ghost pre_dispatch = *self;
        let ghost mut post_exec = *self;
        let ghost mut sys_result: ProgramResult = Ok(());
        let ghost mut gate_ok: bool = true;
        let res: ProgramResult;
        if matches!(package, Package::System) {
            let r0 = crate::system_program::SystemProgramPackage::execute(
                &views,
                &instruction.data,
                self,
            );
            proof {
                post_exec = *self;
                sys_result = r0;
            }
            // Step 6: the rent gate after a system-program call.
            match self.finalize_system_invoke(&views) {
                Err(e) => {
                    proof {
                        gate_ok = false;
                    }
                    res = Err(e);
                },
                Ok(_) => {
                    res = r0;
                },
            }
        } else {
            res = self.dispatch_package(
                package,
                &instruction.program_id,
                &views,
                &instruction.data,
            );
        }
        // Step 7: record the outcome and pop.
        match &res {
            Ok(_) => {
                self.receipt.log_program_succeed();
            },
            Err(err) => {
                self.receipt.log_program_failed(err);
            },
        }
        self.receipt.call_stack.pop();
        proof {
            assert(self.receipt.call_stack@ =~= pre_stack);
            assert(self.receipt.log_messages@[pre_logs.len() as int]
                == pre_dispatch.receipt.log_messages@.last());
            if package == Package::System {
                assert(pre_dispatch.metas == old(self).metas);
                assert(post_exec.metas == self.metas);
                assert(post_exec.settings == self.settings);
                assert(spec_gate_passes(*self, views@) == gate_ok);
                assert(gate_ok ==> res == sys_result);
                assert(!gate_ok ==> res == Err::<(), ProgramError>(
                    ProgramError::AccountNotRentExempt,
                ));
                if !crate::system_instruction::SystemInstruction::spec_parses(
                    instruction.data@,
                ) {
                    assert(self.metas == old(self).metas);
                }
                assert forall|si: crate::system_instruction::SystemInstruction|
                    (#[trigger] si.spec_bytes()).len() <= instruction.data@.len()
                        && si.spec_bytes() == instruction.data@.subrange(
                        0,
                        si.spec_bytes().len() as int,
                    ) implies exists|ir: Result<(), crate::errors::InstructionError>|
                    crate::system_program::spec_system_post(
                        *old(self),
                        *self,
                        views@,
                        si,
                        ir,
                    ) && (spec_gate_passes(*self, views@) ==> res == (match ir {
                        Ok(u) => Ok::<(), ProgramError>(()),
                        Err(e2) => Err::<(), ProgramError>(
                            crate::errors::spec_convert_instruction_error(e2),
                        ),
                    })) by {
                    let ir = choose|ir: Result<(), crate::errors::InstructionError>|
                        crate::system_program::spec_system_post(
                            pre_dispatch,
                            post_exec,
                            views@,
                            si,
                            ir,
                        ) && sys_result == (match ir {
                            Ok(u) => Ok::<(), ProgramError>(()),
                            Err(e2) => Err::<(), ProgramError>(
                                crate::errors::spec_convert_instruction_error(e2),
                            ),
                        });
                    assert(crate::system_program::spec_system_post(
                        *old(self),
                        *self,
                        views@,
                        si,
                        ir,
                    ));
                }
            }
        }
        res
    }

    /// Appends one plain line to the receipt's log.
    fn push_log_line(&mut self, line: &str)
        ensures
            final(self).metas == old(self).metas,
            final(self).settings == old(self).settings,
            final(self).receipt.result == old(self).receipt.result,
            final(self).receipt.call_stack@ == old(self).receipt.call_stack@,
            final(self).receipt.log_datas == old(self).receipt.log_datas,
            final(self).receipt.return_data == old(self).receipt.return_data,
            crate::receipt::spec_log_prefix(old(self).receipt, final(self).receipt),
            final(self).receipt.log_messages@.len() == old(self).receipt.log_messages@.len() + 1,
            final(self).receipt.log_messages@.last()@ == line@,
    {
        self.receipt.push_msg(String::from_str(line));
    }

    /// Runs the resolved package on the callee's views.
    pub(crate) fn dispatch_package(
        &mut self,
        package: Package,
        program_id: &Pubkey,
        accounts: &Vec<AccountInfo>,
        instruction_data: &Vec<u8>,
    ) -> (r: ProgramResult)
        requires
            old(self).spec_wf(),
            1 <= old(self).spec_depth() <= MAX_CALL_DEPTH,
            forall|i: int|
                0 <= i < accounts@.len() ==> old(self).spec_valid_info(#[trigger] accounts@[i]),
        ensures
            final(self).spec_wf(),
            spec_same_shape(*old(self), *final(self)),
            final(self).spec_depth() == old(self).spec_depth(),
            final(self).receipt.call_stack@ == old(self).receipt.call_stack@,
            final(self).receipt.result == old(self).receipt.result,
            crate::receipt::spec_log_prefix(old(self).receipt, final(self).receipt),
            old(self).receipt.return_data is None ==> final(self).receipt.return_data is None,
            package == Package::System ==> {
                &&& final(self).receipt.return_data == old(self).receipt.return_data
                &&& (!crate::system_instruction::SystemInstruction::spec_parses(
                    instruction_data@,
                ) ==> r == Err::<(), ProgramError>(ProgramError::InvalidInstructionData) && final(self).metas == old(self).metas)
                &&& (forall|si: crate::system_instruction::SystemInstruction|
                    (#[trigger] si.spec_bytes()).len() <= instruction_data@.len()
                        && si.spec_bytes() == instruction_data@.subrange(
                        0,
                        si.spec_bytes().len() as int,
                    ) ==> exists|ir: Result<(), crate::errors::InstructionError>|
                        crate::system_program::spec_system_post(
                            *old(self),
                            *final(self),
                            accounts@,
                            si,
                            ir,
                        ) && r == (match ir {
                            Ok(u) => Ok::<(), ProgramError>(()),
                            Err(e2) => Err::<(), ProgramError>(
                                crate::errors::spec_convert_instruction_error(e2),
                            ),
                        }))
            },
        decreases 4 - old(self).spec_depth(), 8int,
    {
        match package {
            Package::System => {
                let r = crate::system_program::SystemProgramPackage::execute(
                    accounts,
                    instruction_data,
                    self,
                );
                proof {
                    assert(old(self).receipt.log_messages@.len()
                        <= self.receipt.log_messages@.len());
                    assert(crate::receipt::spec_log_prefix(old(self).receipt, self.receipt));
                }
                r
            },
            Package::Inline(inline) => {
                match inline.entrypoint {
                    Entrypoint::Descriptor => crate::descriptor::Processor::process_instruction(
                        program_id,
                        accounts,
                        instruction_data,
                        self,
                    ),
                    Entrypoint::Viewer => crate::viewer::Processor::process_instruction(
                        program_id,
                        accounts,
                        instruction_data,
                        self,
                    ),
                    Entrypoint::SimplePool => crate::pool::Processor::process_instruction(
                        program_id,
                        accounts,
                        instruction_data,
                        self,
                    ),
                    Entrypoint::Token => crate::spl::token_process_instruction(
                        program_id,
                        accounts,
                        instruction_data,
                        self,
                    ),
                    Entrypoint::AssociatedToken => crate::spl::associated_process_instruction(
                        program_id,
                        accounts,
                        instruction_data,
                        self,
                    ),
                }
            },
        }
    }
}

/// Re-enters the dispatcher for a nested call without extra borrow
/// bookkeeping; the runtime holds account state centrally, so this is the
/// same operation as `invoke_signed`.
pub fn invoke_signed_unchecked(
    instruction: &Instruction,
    account_infos: &Vec<AccountInfo>,
    signers_seeds: &Vec<Vec<Vec<u8>>>,
    scope: &mut Scope,
) -> (r: ProgramResult)
    requires
        old(scope).spec_wf(),
        1 <= old(scope).spec_depth() <= MAX_CALL_DEPTH,
        forall|i: int|
            0 <= i < account_infos@.len() ==> old(scope).spec_valid_info(
                #[trigger] account_infos@[i],
            ),
    ensures
        final(scope).spec_wf(),
        spec_same_shape(*old(scope), *final(scope)),
        final(scope).spec_depth() == old(scope).spec_depth(),
        final(scope).receipt.call_stack@ == old(scope).receipt.call_stack@,
        final(scope).receipt.result == old(scope).receipt.result,
        crate::receipt::spec_log_prefix(old(scope).receipt, final(scope).receipt),
        spec_precheck(*old(scope), *instruction, account_infos@, signers_seeds.deep_view()) matches Some(e) ==> r == Err::<(), ProgramError>(e) && final(scope).metas
            == old(scope).metas && final(scope).receipt.log_messages@.len() == old(
            scope,
        ).receipt.log_messages@.len() + 1 && final(scope).receipt.log_messages@.last()@
            == spec_precheck_line(
            *old(scope),
            *instruction,
            account_infos@,
            signers_seeds.deep_view(),
        ) && final(scope).receipt.return_data == old(scope).receipt.return_data,
        spec_precheck(*old(scope), *instruction, account_infos@, signers_seeds.deep_view()) is None ==> ({
            let views = spec_child_views(account_infos@, instruction.accounts@);
            let pre_logs = old(scope).receipt.log_messages@;
            let logs = final(scope).receipt.log_messages@;
            &&& logs.len() >= pre_logs.len() + 2
            &&& logs[pre_logs.len() as int]@ == "Program invoked: "@ + crate::pubkey::base58_of(
                instruction.program_id@,
            )
            &&& (r is Ok ==> logs.last()@ == "Program returned success"@)
            &&& (r matches Err(e) ==> logs.last()@ == "Program returned error: \""@
                + e.spec_message() + "\""@)
            &&& final(scope).receipt.return_data is None
            &&& (spec_resolved_package(*old(scope), account_infos@, instruction.program_id@)
                == Some(Package::System) ==> {
                &&& (!spec_gate_passes(*final(scope), views) ==> r == Err::<(), ProgramError>(
                    ProgramError::AccountNotRentExempt,
                ))
                &&& (!crate::system_instruction::SystemInstruction::spec_parses(
                    instruction.data@,
                ) ==> final(scope).metas == old(scope).metas && (spec_gate_passes(
                    *final(scope),
                    views,
                ) ==> r == Err::<(), ProgramError>(ProgramError::InvalidInstructionData)))
                &&& (forall|si: crate::system_instruction::SystemInstruction|
                    (#[trigger] si.spec_bytes()).len() <= instruction.data@.len()
                        && si.spec_bytes() == instruction.data@.subrange(
                        0,
                        si.spec_bytes().len() as int,
                    ) ==> exists|ir: Result<(), crate::errors::InstructionError>|
                        crate::system_program::spec_system_post(
                            *old(scope),
                            *final(scope),
                            views,
                            si,
                            ir,
                        ) && (spec_gate_passes(*final(scope), views) ==> r == (match ir {
                            Ok(u) => Ok::<(), ProgramError>(()),
                            Err(e2) => Err::<(), ProgramError>(
                                crate::errors::spec_convert_instruction_error(e2),
                            ),
                        })))
            })
        }),
    decreases 4 - old(scope).spec_depth(), 1int,
{
    scope.invoke_signed_unchecked(instruction, account_infos, signers_seeds)
}

/// A nested call with seed-derived signing authority.
pub fn invoke_signed(
    instruction: &Instruction,
    account_infos: &Vec<AccountInfo>,
    signers_seeds: &Vec<Vec<Vec<u8>>>,
    scope: &mut Scope,
) -> (r: ProgramResult)
    requires
        old(scope).spec_wf(),
        1 <= old(scope).spec_depth() <= MAX_CALL_DEPTH,
        forall|i: int|
            0 <= i < account_infos@.len() ==> old(scope).spec_valid_info(
                #[trigger] account_infos@[i],
            ),
    ensures
        final(scope).spec_wf(),
        spec_same_shape(*old(scope), *final(scope)),
        final(scope).spec_depth() == old(scope).spec_depth(),
        final(scope).receipt.call_stack@ == old(scope).receipt.call_stack@,
        final(scope).receipt.result == old(scope).receipt.result,
        crate::receipt::spec_log_prefix(old(scope).receipt, final(scope).receipt),
        spec_precheck(*old(scope), *instruction, account_infos@, signers_seeds.deep_view()) matches Some(e) ==> r == Err::<(), ProgramError>(e) && final(scope).metas
            == old(scope).metas && final(scope).receipt.log_messages@.len() == old(
            scope,
        ).receipt.log_messages@.len() + 1 && final(scope).receipt.log_messages@.last()@
            == spec_precheck_line(
            *old(scope),
            *instruction,
            account_infos@,
            signers_seeds.deep_view(),
        ) && final(scope).receipt.return_data == old(scope).receipt.return_data,
        spec_precheck(*old(scope), *instruction, account_infos@, signers_seeds.deep_view()) is None ==> ({
            let views = spec_child_views(account_infos@, instruction.accounts@);
            let pre_logs = old(scope).receipt.log_messages@;
            let logs = final(scope).receipt.log_messages@;
            &&& logs.len() >= pre_logs.len() + 2
            &&& logs[pre_logs.len() as int]@ == "Program invoked: "@ + crate::pubkey::base58_of(
                instruction.program_id@,
            )
            &&& (r is Ok ==> logs.last()@ == "Program returned success"@)
            &&& (r matches Err(e) ==> logs.last()@ == "Program returned error: \""@
                + e.spec_message() + "\""@)
            &&& final(scope).receipt.return_data is None
            &&& (spec_resolved_package(*old(scope), account_infos@, instruction.program_id@)
                == Some(Package::System) ==> {
                &&& (!spec_gate_passes(*final(scope), views) ==> r == Err::<(), ProgramError>(
                    ProgramError::AccountNotRentExempt,
                ))
                &&& (!crate::system_instruction::SystemInstruction::spec_parses(
                    instruction.data@,
                ) ==> final(scope).metas == old(scope).metas && (spec_gate_passes(
                    *final(scope),
                    views,
                ) ==> r == Err::<(), ProgramError>(ProgramError::InvalidInstructionData)))
                &&& (forall|si: crate::system_instruction::SystemInstruction|
                    (#[trigger] si.spec_bytes()).len() <= instruction.data@.len()
                        && si.spec_bytes() == instruction.data@.subrange(
                        0,
                        si.spec_bytes().len() as int,
                    ) ==> exists|ir: Result<(), crate::errors::InstructionError>|
                        crate::system_program::spec_system_post(
                            *old(scope),
                            *final(scope),
                            views,
                            si,
                            ir,
                        ) && (spec_gate_passes(*final(scope), views) ==> r == (match ir {
                            Ok(u) => Ok::<(), ProgramError>(()),
                            Err(e2) => Err::<(), ProgramError>(
                                crate::errors::spec_convert_instruction_error(e2),
                            ),
                        })))
            })
        }),
    decreases 4 - old(scope).spec_depth(), 2int,
{
    scope.invoke_signed_unchecked(instruction, account_infos, signers_seeds)
}

/// A nested call without seed-derived authority.
pub fn invoke(instruction: &Instruction, account_infos: &Vec<AccountInfo>, scope: &mut Scope) -> (r:
    ProgramResult)
    requires
        old(scope).spec_wf(),
        1 <= old(scope).spec_depth() <= MAX_CALL_DEPTH,
        forall|i: int|
            0 <= i < account_infos@.len() ==> old(scope).spec_valid_info(
                #[trigger] account_infos@[i],
            ),
    ensures
        final(scope).spec_wf(),
        spec_same_shape(*old(scope), *final(scope)),
        final(scope).spec_depth() == old(scope).spec_depth(),
        final(scope).receipt.call_stack@ == old(scope).receipt.call_stack@,
        final(scope).receipt.result == old(scope).receipt.result,
        crate::receipt::spec_log_prefix(old(scope).receipt, final(scope).receipt),
        spec_precheck(*old(scope), *instruction, account_infos@, Seq::<Seq<Seq<u8>>>::empty()) matches Some(e) ==> r == Err::<(), ProgramError>(e) && final(scope).metas
            == old(scope).metas && final(scope).receipt.log_messages@.len() == old(
            scope,
        ).receipt.log_messages@.len() + 1 && final(scope).receipt.log_messages@.last()@
            == spec_precheck_line(
            *old(scope),
            *instruction,
            account_infos@,
            Seq::<Seq<Seq<u8>>>::empty(),
        ) && final(scope).receipt.return_data == old(scope).receipt.return_data,
        spec_precheck(*old(scope), *instruction, account_infos@, Seq::<Seq<Seq<u8>>>::empty()) is None ==> ({
            let views = spec_child_views(account_infos@, instruction.accounts@);
            let pre_logs = old(scope).receipt.log_messages@;
            let logs = final(scope).receipt.log_messages@;
            &&& logs.len() >= pre_logs.len() + 2
            &&& logs[pre_logs.len() as int]@ == "Program invoked: "@ + crate::pubkey::base58_of(
                instruction.program_id@,
            )
            &&& (r is Ok ==> logs.last()@ == "Program returned success"@)
            &&& (r matches Err(e) ==> logs.last()@ == "Program returned error: \""@
                + e.spec_message() + "\""@)
            &&& final(scope).receipt.return_data is None
            &&& (spec_resolved_package(*old(scope), account_infos@, instruction.program_id@)
                == Some(Package::System) ==> {
                &&& (!spec_gate_passes(*final(scope), views) ==> r == Err::<(), ProgramError>(
                    ProgramError::AccountNotRentExempt,
                ))
                &&& (!crate::system_instruction::SystemInstruction::spec_parses(
                    instruction.data@,
                ) ==> final(scope).metas == old(scope).metas && (spec_gate_passes(
                    *final(scope),
                    views,
                ) ==> r == Err::<(), ProgramError>(ProgramError::InvalidInstructionData)))
                &&& (forall|si: crate::system_instruction::SystemInstruction|
                    (#[trigger] si.spec_bytes()).len() <= instruction.data@.len()
                        && si.spec_bytes() == instruction.data@.subrange(
                        0,
                        si.spec_bytes().len() as int,
                    ) ==> exists|ir: Result<(), crate::errors::InstructionError>|
                        crate::system_program::spec_system_post(
                            *old(scope),
                            *final(scope),
                            views,
                            si,
                            ir,
                        ) && (spec_gate_passes(*final(scope), views) ==> r == (match ir {
                            Ok(u) => Ok::<(), ProgramError>(()),
                            Err(e2) => Err::<(), ProgramError>(
                                crate::errors::spec_convert_instruction_error(e2),
                            ),
                        })))
            })
        }),
    decreases 4 - old(scope).spec_depth(), 3int,
{
    let empty_seeds: Vec<Vec<Vec<u8>>> = Vec::new();
    proof {
        assert(empty_seeds.deep_view() =~~= Seq::<Seq<Seq<u8>>>::empty());
    }
    invoke_signed(instruction, account_infos, &empty_seeds, scope)
}

/// A nested call without seed-derived authority.
pub fn invoke_unchecked(
    instruction: &Instruction,
    account_infos: &Vec<AccountInfo>,
    scope: &mut Scope,
) -> (r: ProgramResult)
    requires
        old(scope).spec_wf(),
        1 <= old(scope).spec_depth() <= MAX_CALL_DEPTH,
        forall|i: int|
            0 <= i < account_infos@.len() ==> old(scope).spec_valid_info(
                #[trigger] account_infos@[i],
            ),
    ensures
        final(scope).spec_wf(),
        spec_same_shape(*old(scope), *final(scope)),
        final(scope).spec_depth() == old(scope).spec_depth(),
        final(scope).receipt.call_stack@ == old(scope).receipt.call_stack@,
        final(scope).receipt.result == old(scope).receipt.result,
        crate::receipt::spec_log_prefix(old(scope).receipt, final(scope).receipt),
        spec_precheck(*old(scope), *instruction, account_infos@, Seq::<Seq<Seq<u8>>>::empty()) matches Some(e) ==> r == Err::<(), ProgramError>(e) && final(scope).metas
            == old(scope).metas && final(scope).receipt.log_messages@.len() == old(
            scope,
        ).receipt.log_messages@.len() + 1 && final(scope).receipt.log_messages@.last()@
            == spec_precheck_line(
            *old(scope),
            *instruction,
            account_infos@,
            Seq::<Seq<Seq<u8>>>::empty(),
        ) && final(scope).receipt.return_data == old(scope).receipt.return_data,
        spec_precheck(*old(scope), *instruction, account_infos@, Seq::<Seq<Seq<u8>>>::empty()) is None ==> ({
            let views = spec_child_views(account_infos@, instruction.accounts@);
            let pre_logs = old(scope).receipt.log_messages@;
            let logs = final(scope).receipt.log_messages@;
            &&& logs.len() >= pre_logs.len() + 2
            &&& logs[pre_logs.len() as int]@ == "Program invoked: "@ + crate::pubkey::base58_of(
                instruction.program_id@,
            )
            &&& (r is Ok ==> logs.last()@ == "Program returned success"@)
            &&& (r matches Err(e) ==> logs.last()@ == "Program returned error: \""@
                + e.spec_message() + "\""@)
            &&& final(scope).receipt.return_data is None
            &&& (spec_resolved_package(*old(scope), account_infos@, instruction.program_id@)
                == Some(Package::System) ==> {
                &&& (!spec_gate_passes(*final(scope), views) ==> r == Err::<(), ProgramError>(
                    ProgramError::AccountNotRentExempt,
                ))
                &&& (!crate::system_instruction::SystemInstruction::spec_parses(
                    instruction.data@,
                ) ==> final(scope).metas == old(scope).metas && (spec_gate_passes(
                    *final(scope),
                    views,
                ) ==> r == Err::<(), ProgramError>(ProgramError::InvalidInstructionData)))
                &&& (forall|si: crate::system_instruction::SystemInstruction|
                    (#[trigger] si.spec_bytes()).len() <= instruction.data@.len()
                        && si.spec_bytes() == instruction.data@.subrange(
                        0,
                        si.spec_bytes().len() as int,
                    ) ==> exists|ir: Result<(), crate::errors::InstructionError>|
                        crate::system_program::spec_system_post(
                            *old(scope),
                            *final(scope),
                            views,
                            si,
                            ir,
                        ) && (spec_gate_passes(*final(scope), views) ==> r == (match ir {
                            Ok(u) => Ok::<(), ProgramError>(()),
                            Err(e2) => Err::<(), ProgramError>(
                                crate::errors::spec_convert_instruction_error(e2),
                            ),
                        })))
            })
        }),
    decreases 4 - old(scope).spec_depth(), 3int,
{
    let empty_seeds: Vec<Vec<Vec<u8>>> = Vec::new();
    proof {
        assert(empty_seeds.deep_view() =~~= Seq::<Seq<Seq<u8>>>::empty());
    }
    invoke_signed_unchecked(instruction, account_infos, &empty_seeds, scope)
}

/// Stores the running program's return data.
pub fn set_return_data(data: &[u8], scope: &mut Scope)
    requires
        old(scope).spec_depth() > 0,
        data@.len() <= crate::scope::MAX_RETURN_DATA,
    ensures
        final(scope).metas == old(scope).metas,
        final(scope).settings == old(scope).settings,
        final(scope).receipt.result == old(scope).receipt.result,
        final(scope).receipt.call_stack@ == old(scope).receipt.call_stack@,
        final(scope).receipt.return_data matches Some(p) && p.0 == old(scope).receipt.call_stack@.last() && p.1@ == data@,
{
    scope.set_return_data(data)
}

/// The return data of the most recently returned program.
pub fn get_return_data(scope: &Scope) -> (r: Option<(Pubkey, Vec<u8>)>)
    ensures
        match r {
            Some(p) => scope.receipt.return_data matches Some(q) && q.0 == p.0 && q.1@ == p.1@,
            None => scope.receipt.return_data is None,
        },
{
    scope.get_return_data()
}

} // verus!
