use crate::account_info::{next_account_info, AccountInfo};
use crate::codec::{read_u64_le, write_u64_le, BorshCodec};
use crate::counter::Counter;
use crate::descriptor::{check, DescriptorInstruction};
use crate::errors::{ProgramError, ProgramResult};
use crate::instruction::{AccountMeta, Instruction};
use crate::pubkey::Pubkey;
use crate::scope::{spec_same_shape, Scope, MAX_CALL_DEPTH};
use vstd::bytes::{lemma_auto_spec_u64_to_from_le_bytes, spec_u64_to_le_bytes};
use vstd::prelude::*;

verus! {

broadcast use crate::pubkey::lemma_pubkey_len;

/// The viewer contract's instruction set.
#[derive(Clone, Copy, Debug)]
pub enum ViewerInstruction {
    Log,
    LogData,
    CallAndRead,
    PDASignature,
    ReallocAccount { new_size: u64 },
}

impl ViewerInstruction {
    /// The wire tag of each variant.
    pub open spec fn spec_tag(self) -> u8 {
        match self {
            ViewerInstruction::Log => 0,
            ViewerInstruction::LogData => 1,
            ViewerInstruction::CallAndRead => 2,
            ViewerInstruction::PDASignature => 3,
            ViewerInstruction::ReallocAccount { .. } => 4,
        }
    }
}

impl BorshCodec for ViewerInstruction {
    open spec fn spec_bytes(&self) -> Seq<u8> {
        match *self {
            ViewerInstruction::Log => seq![0u8],
            ViewerInstruction::LogData => seq![1u8],
            ViewerInstruction::CallAndRead => seq![2u8],
            ViewerInstruction::PDASignature => seq![3u8],
            ViewerInstruction::ReallocAccount { new_size } => seq![4u8] + spec_u64_to_le_bytes(
                new_size,
            ),
        }
    }

    open spec fn spec_parses(data: Seq<u8>) -> bool {
        data.len() >= 1 && {
            ||| data[0] == 0
            ||| data[0] == 1
            ||| data[0] == 2
            ||| data[0] == 3
            ||| (data[0] == 4 && data.len() >= 9)
        }
    }

    fn write_bytes(&self, dst: &mut Vec<u8>) {
        match self {
            ViewerInstruction::Log => {
                dst.push(0u8);
                proof {
                    assert(old(dst)@.push(0u8) =~= old(dst)@ + seq![0u8]);
                }
            },
            ViewerInstruction::LogData => {
                dst.push(1u8);
                proof {
                    assert(old(dst)@.push(1u8) =~= old(dst)@ + seq![1u8]);
                }
            },
            ViewerInstruction::CallAndRead => {
                dst.push(2u8);
                proof {
                    assert(old(dst)@.push(2u8) =~= old(dst)@ + seq![2u8]);
                }
            },
            ViewerInstruction::PDASignature => {
                dst.push(3u8);
                proof {
                    assert(old(dst)@.push(3u8) =~= old(dst)@ + seq![3u8]);
                }
            },
            ViewerInstruction::ReallocAccount { new_size } => {
                dst.push(4u8);
                write_u64_le(dst, *new_size);
                proof {
                    assert(old(dst)@.push(4u8) + spec_u64_to_le_bytes(*new_size) =~= old(dst)@ + (
                    seq![4u8] + spec_u64_to_le_bytes(*new_size)));
                }
            },
        }
    }

    fn parse(data: &[u8]) -> (r: Option<Self>) {
        proof {
            lemma_auto_spec_u64_to_from_le_bytes();
        }
        let n = data.len();
        if n < 1 {
            return None;
        }
        let tag = data[0];
        if tag == 0 {
            let v = ViewerInstruction::Log;
            proof {
                assert(v.spec_bytes() =~= data@.subrange(0, 1));
            }
            Some(v)
        } else if tag == 1 {
            let v = ViewerInstruction::LogData;
            proof {
                assert(v.spec_bytes() =~= data@.subrange(0, 1));
            }
            Some(v)
        } else if tag == 2 {
            let v = ViewerInstruction::CallAndRead;
            proof {
                assert(v.spec_bytes() =~= data@.subrange(0, 1));
            }
            Some(v)
        } else if tag == 3 {
            let v = ViewerInstruction::PDASignature;
            proof {
                assert(v.spec_bytes() =~= data@.subrange(0, 1));
            }
            Some(v)
        } else if tag == 4 {
            if n < 9 {
                return None;
            }
            let new_size = read_u64_le(data, 1);
            let v = ViewerInstruction::ReallocAccount { new_size };
            proof {
                assert(v.spec_bytes() =~= data@.subrange(0, 9));
            }
            Some(v)
        } else {
            None
        }
    }

    proof fn lemma_encoding_parses(v: Self, extra: Seq<u8>) {
        lemma_auto_spec_u64_to_from_le_bytes();
        assert((v.spec_bytes() + extra)[0] == v.spec_tag());
    }

    proof fn lemma_prefix_injective(a: Self, b: Self) {
        lemma_auto_spec_u64_to_from_le_bytes();
        assert(a.spec_bytes()[0] == a.spec_tag());
        assert(b.spec_bytes()[0] == b.spec_tag());
        assert(a.spec_tag() == b.spec_tag());
        match (a, b) {
            (
                ViewerInstruction::ReallocAccount { new_size: va },
                ViewerInstruction::ReallocAccount { new_size: vb },
            ) => {
                assert(a.spec_bytes() =~= b.spec_bytes());
                assert(a.spec_bytes().subrange(1, 9) =~= spec_u64_to_le_bytes(va));
                assert(b.spec_bytes().subrange(1, 9) =~= spec_u64_to_le_bytes(vb));
            },
            _ => {},
        }
    }
}

/// What the viewer contract decides and does for one parsed instruction,
/// for the arms whose effects touch no other program.
pub open spec fn spec_viewer_post(
    pre: Scope,
    post: Scope,
    ix: ViewerInstruction,
    r: crate::errors::ProgramResult,
) -> bool {
    match ix {
        ViewerInstruction::Log => {
            &&& r is Ok
            &&& post.metas == pre.metas
            &&& post.receipt.spec_contains_log("Program logged: \""@ + "Simple log"@ + "\""@)
        },
        ViewerInstruction::LogData => {
            &&& r is Ok
            &&& post.metas == pre.metas
            &&& post.receipt.spec_contains_data(
                pre.receipt.call_stack@.last()@,
                seq![seq![1u8, 2u8, 3u8, 4u8]],
            )
        },
        _ => true,
    }
}

/// The viewer sample contract's processor.
pub struct Processor {}

impl Processor {
    pub fn process_instruction(
        program_id: &Pubkey,
        accounts: &Vec<AccountInfo>,
        instruction_data: &Vec<u8>,
        scope: &mut Scope,
    ) -> (r: ProgramResult)
        requires
            old(scope).spec_wf(),
            1 <= old(scope).spec_depth() <= MAX_CALL_DEPTH,
            forall|i: int|
                0 <= i < accounts@.len() ==> old(scope).spec_valid_info(#[trigger] accounts@[i]),
        ensures
            final(scope).spec_wf(),
            spec_same_shape(*old(scope), *final(scope)),
            final(scope).spec_depth() == old(scope).spec_depth(),
            final(scope).receipt.call_stack@ == old(scope).receipt.call_stack@,
            final(scope).receipt.result == old(scope).receipt.result,
            crate::receipt::spec_log_prefix(old(scope).receipt, final(scope).receipt),
        old(scope).receipt.return_data is None ==> final(scope).receipt.return_data is None,
            old(scope).receipt.return_data is None ==> final(scope).receipt.return_data is None,
            accounts@.len() == 0 ==> r == Err::<(), ProgramError>(
                ProgramError::NotEnoughAccountKeys,
            ),
            accounts@.len() > 0 && !accounts@[0].is_signer ==> r == Err::<(), ProgramError>(
                ProgramError::InvalidArgument,
            ),
            crate::descriptor::spec_payer_checked(*old(scope), accounts@)
                && !ViewerInstruction::spec_parses(instruction_data@) ==> r == Err::<
                (),
                ProgramError,
            >(ProgramError::InvalidInstructionData) && final(scope).metas == old(scope).metas,
            crate::descriptor::spec_payer_checked(*old(scope), accounts@) ==> forall|
                ix: ViewerInstruction,
            |
                (#[trigger] ix.spec_bytes()).len() <= instruction_data@.len() && ix.spec_bytes()
                    == instruction_data@.subrange(0, ix.spec_bytes().len() as int)
                    ==> spec_viewer_post(*old(scope), *final(scope), ix, r),
        decreases 4 - old(scope).spec_depth(), 7int,
    {
        let mut cursor: usize = 0;
        let payer = next_account_info(accounts, &mut cursor)?;
        check(payer.is_signer, "Payer is not signed", scope)?;
        check(payer.lamports(scope) >= 5000000, "Payer not funded", scope)?;
        let parsed = ViewerInstruction::parse(instruction_data.as_slice());
        let instruction = match parsed {
            Some(ix) => ix,
            None => {
                proof {
                    assert forall|ix: ViewerInstruction|
                        (#[trigger] ix.spec_bytes()).len() <= instruction_data@.len()
                            && ix.spec_bytes() == instruction_data@.subrange(
                            0,
                            ix.spec_bytes().len() as int,
                        ) implies spec_viewer_post(
                        *old(scope),
                        *scope,
                        ix,
                        Err(ProgramError::InvalidInstructionData),
                    ) by {
                        let rest = instruction_data@.skip(ix.spec_bytes().len() as int);
                        ViewerInstruction::lemma_encoding_parses(ix, rest);
                        assert(ix.spec_bytes() + rest =~= instruction_data@);
                        assert(false);
                    }
                }
                return Err(ProgramError::InvalidInstructionData);
            },
        };
        let ghost parsed_ix = instruction;
        let r = Self::run_parsed(program_id, accounts, &payer, instruction, scope);
        proof {
            assert forall|ix: ViewerInstruction|
                (#[trigger] ix.spec_bytes()).len() <= instruction_data@.len() && ix.spec_bytes()
                    == instruction_data@.subrange(0, ix.spec_bytes().len() as int)
                    implies spec_viewer_post(*old(scope), *scope, ix, r) by {
                crate::codec::lemma_parse_unique(instruction_data@, ix, parsed_ix);
            }
        }
        r
    }

    /// Runs one already-decoded instruction for a checked payer.
    fn run_parsed(
        program_id: &Pubkey,
        accounts: &Vec<AccountInfo>,
        payer: &AccountInfo,
        instruction: ViewerInstruction,
        scope: &mut Scope,
    ) -> (r: ProgramResult)
        requires
            old(scope).spec_wf(),
            1 <= old(scope).spec_depth() <= MAX_CALL_DEPTH,
            forall|i: int|
                0 <= i < accounts@.len() ==> old(scope).spec_valid_info(#[trigger] accounts@[i]),
            accounts@.len() > 0,
            *payer == accounts@[0],
        ensures
            final(scope).spec_wf(),
            spec_same_shape(*old(scope), *final(scope)),
            final(scope).spec_depth() == old(scope).spec_depth(),
            final(scope).receipt.call_stack@ == old(scope).receipt.call_stack@,
            final(scope).receipt.result == old(scope).receipt.result,
            crate::receipt::spec_log_prefix(old(scope).receipt, final(scope).receipt),
        old(scope).receipt.return_data is None ==> final(scope).receipt.return_data is None,
            old(scope).receipt.return_data is None ==> final(scope).receipt.return_data is None,
            spec_viewer_post(*old(scope), *final(scope), instruction, r),
        decreases 4 - old(scope).spec_depth(), 5int,
    {
        let mut cursor: usize = 1;
        match instruction {
            ViewerInstruction::Log => {
                crate::log::sol_log("Simple log", scope);
                Ok(())
            },
            ViewerInstruction::LogData => {
                let mut chunk: Vec<u8> = Vec::new();
                chunk.push(1);
                chunk.push(2);
                chunk.push(3);
                chunk.push(4);
                let mut tuple: Vec<Vec<u8>> = Vec::new();
                tuple.push(chunk);
                proof {
                    assert(tuple.deep_view() =~~= seq![seq![1u8, 2u8, 3u8, 4u8]]);
                }
                crate::log::sol_log_data(&tuple, scope);
                Ok(())
            },
            ViewerInstruction::CallAndRead => {
                let counter_ai = next_account_info(accounts, &mut cursor)?;
                let descriptor_program = next_account_info(accounts, &mut cursor)?;
                let bytes = crate::codec::encode_to_vec(
                    &(DescriptorInstruction::WriteData { value: 99 }),
                );
                let mut metas: Vec<AccountMeta> = Vec::new();
                metas.push(AccountMeta::new(payer.key.clone(), true));
                metas.push(AccountMeta::new(counter_ai.key.clone(), false));
                let idx = Instruction::new_with_bytes(
                    descriptor_program.key.clone(),
                    bytes.as_slice(),
                    metas,
                );
                let mut infos: Vec<AccountInfo> = Vec::new();
                infos.push(payer.clone());
                infos.push(counter_ai.clone());
                infos.push(descriptor_program.clone());
                crate::invoke::invoke(&idx, &infos, scope)?;
                let counter = Counter::load(&counter_ai, scope)?;
                check(counter.value == 99, "Counter not updated", scope)
            },
            ViewerInstruction::PDASignature => {
                let pda_account_ai = next_account_info(accounts, &mut cursor)?;
                let descriptor_program = next_account_info(accounts, &mut cursor)?;
                let mut seeds: Vec<Vec<u8>> = Vec::new();
                seeds.push(viewer_seed_text());
                seeds.push(crate::pubkey::clone_bytes(payer.key.as_bytes().as_slice()));
                seeds.push(crate::pubkey::clone_bytes(program_id.as_bytes().as_slice()));
                let bump: u8;
                match Pubkey::try_find_program_address(&seeds, program_id) {
                    None => {
                        return Err(ProgramError::InvalidSeeds);
                    },
                    Some(_found) => {
                        let confirmed = Pubkey::find_program_address(&seeds, program_id);
                        bump = confirmed.1;
                    },
                }
                let mut bump_seed: Vec<u8> = Vec::new();
                bump_seed.push(bump);
                let signing = crate::pubkey::seeds_with_extra(&seeds, bump_seed);
                let mut signers: Vec<Vec<Vec<u8>>> = Vec::new();
                signers.push(signing);
                let bytes = crate::codec::encode_to_vec(&(DescriptorInstruction::VerifySigner));
                let mut metas: Vec<AccountMeta> = Vec::new();
                metas.push(AccountMeta::new(payer.key.clone(), true));
                metas.push(AccountMeta::new_readonly(pda_account_ai.key.clone(), true));
                let idx = Instruction::new_with_bytes(
                    descriptor_program.key.clone(),
                    bytes.as_slice(),
                    metas,
                );
                let mut infos: Vec<AccountInfo> = Vec::new();
                infos.push(payer.clone());
                infos.push(pda_account_ai.clone());
                infos.push(descriptor_program.clone());
                crate::invoke::invoke_signed(&idx, &infos, &signers, scope)
            },
            ViewerInstruction::ReallocAccount { new_size } => {
                let account_ai = next_account_info(accounts, &mut cursor)?;
                let system_program = next_account_info(accounts, &mut cursor)?;
                check(account_ai.is_writable, "Account not writable", scope)?;
                if new_size > usize::MAX as u64 {
                    return Err(ProgramError::InvalidRealloc);
                }
                let new_size: usize = new_size as usize;
                let current_len = account_ai.data_len(scope);
                let add = if new_size > current_len {
                    new_size - current_len
                } else {
                    0
                };
                let rent = scope.get_rent();
                let min = rent.minimum_balance(add);
                let idx = crate::system_instruction::transfer(&payer.key, &account_ai.key, min);
                let mut infos: Vec<AccountInfo> = Vec::new();
                infos.push(payer.clone());
                infos.push(account_ai.clone());
                infos.push(system_program.clone());
                crate::invoke::invoke(&idx, &infos, scope)?;
                account_ai.realloc(scope, new_size, false)?;
                let len_now = account_ai.data_len(scope);
                check(len_now == new_size, "Account not realloced", scope)
            },
        }
    }
}

/// The ASCII bytes of the seed word `viewer`.
pub fn viewer_seed_text() -> (r: Vec<u8>)
    ensures
        r@ =~= seq![118u8, 105u8, 101u8, 119u8, 101u8, 114u8],
{
    let mut v: Vec<u8> = Vec::new();
    v.push(118);
    v.push(105);
    v.push(101);
    v.push(119);
    v.push(101);
    v.push(114);
    proof {
        assert(v@ =~= seq![118u8, 105u8, 101u8, 119u8, 101u8, 114u8]);
    }
    v
}

} // verus!
