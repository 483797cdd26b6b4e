use crate::account_info::{next_account_info, AccountInfo};
use crate::codec::{read_u64_le, write_u64_le, BorshCodec};
use crate::counter::Counter;
use crate::errors::{ProgramError, ProgramResult};
use crate::pubkey::Pubkey;
use crate::scope::{spec_same_shape, Scope, MAX_CALL_DEPTH};
use vstd::bytes::{lemma_auto_spec_u64_to_from_le_bytes, spec_u64_to_le_bytes};
use vstd::prelude::*;
use vstd::string::StringExecFns;

verus! {

broadcast use crate::pubkey::lemma_pubkey_len;

/// The descriptor contract's instruction set.
#[derive(Clone, Copy, Debug)]
pub enum DescriptorInstruction {
    ReadToLog,
    WriteData { value: u64 },
    CreateAccount,
    CreateAccountPDA,
    TransferSol { amount: u64 },
    VerifySigner,
}

impl DescriptorInstruction {
    /// The wire tag of each variant.
    pub open spec fn spec_tag(self) -> u8 {
        match self {
            DescriptorInstruction::ReadToLog => 0,
            DescriptorInstruction::WriteData { .. } => 1,
            DescriptorInstruction::CreateAccount => 2,
            DescriptorInstruction::CreateAccountPDA => 3,
            DescriptorInstruction::TransferSol { .. } => 4,
            DescriptorInstruction::VerifySigner => 5,
        }
    }
}

impl BorshCodec for DescriptorInstruction {
    open spec fn spec_bytes(&self) -> Seq<u8> {
        match *self {
            DescriptorInstruction::ReadToLog => seq![0u8],
            DescriptorInstruction::WriteData { value } => seq![1u8] + spec_u64_to_le_bytes(value),
            DescriptorInstruction::CreateAccount => seq![2u8],
            DescriptorInstruction::CreateAccountPDA => seq![3u8],
            DescriptorInstruction::TransferSol { amount } => seq![4u8] + spec_u64_to_le_bytes(
                amount,
            ),
            DescriptorInstruction::VerifySigner => seq![5u8],
        }
    }

    open spec fn spec_parses(data: Seq<u8>) -> bool {
        data.len() >= 1 && {
            ||| data[0] == 0
            ||| (data[0] == 1 && data.len() >= 9)
            ||| data[0] == 2
            ||| data[0] == 3
            ||| (data[0] == 4 && data.len() >= 9)
            ||| data[0] == 5
        }
    }

    fn write_bytes(&self, dst: &mut Vec<u8>) {
        match self {
            DescriptorInstruction::ReadToLog => {
                dst.push(0u8);
                proof {
                    assert(old(dst)@.push(0u8) =~= old(dst)@ + seq![0u8]);
                }
            },
            DescriptorInstruction::WriteData { value } => {
                dst.push(1u8);
                write_u64_le(dst, *value);
                proof {
                    assert(old(dst)@.push(1u8) + spec_u64_to_le_bytes(*value) =~= old(dst)@ + (
                    seq![1u8] + spec_u64_to_le_bytes(*value)));
                }
            },
            DescriptorInstruction::CreateAccount => {
                dst.push(2u8);
                proof {
                    assert(old(dst)@.push(2u8) =~= old(dst)@ + seq![2u8]);
                }
            },
            DescriptorInstruction::CreateAccountPDA => {
                dst.push(3u8);
                proof {
                    assert(old(dst)@.push(3u8) =~= old(dst)@ + seq![3u8]);
                }
            },
            DescriptorInstruction::TransferSol { amount } => {
                dst.push(4u8);
                write_u64_le(dst, *amount);
                proof {
                    assert(old(dst)@.push(4u8) + spec_u64_to_le_bytes(*amount) =~= old(dst)@ + (
                    seq![4u8] + spec_u64_to_le_bytes(*amount)));
                }
            },
            DescriptorInstruction::VerifySigner => {
                dst.push(5u8);
                proof {
                    assert(old(dst)@.push(5u8) =~= old(dst)@ + seq![5u8]);
                }
            },
        }
    }

    fn parse(data: &[u8]) -> (r: Option<Self>) {
        proof {
            lemma_auto_spec_u64_to_from_le_bytes();
        }
        let n = data.len();
        if n < 1 {
            return None;
        }
        let tag = data[0];
        if tag == 0 {
            let v = DescriptorInstruction::ReadToLog;
            proof {
                assert(v.spec_bytes() =~= data@.subrange(0, 1));
            }
            Some(v)
        } else if tag == 1 {
            if n < 9 {
                return None;
            }
            let value = read_u64_le(data, 1);
            let v = DescriptorInstruction::WriteData { value };
            proof {
                assert(v.spec_bytes() =~= data@.subrange(0, 9));
            }
            Some(v)
        } else if tag == 2 {
            let v = DescriptorInstruction::CreateAccount;
            proof {
                assert(v.spec_bytes() =~= data@.subrange(0, 1));
            }
            Some(v)
        } else if tag == 3 {
            let v = DescriptorInstruction::CreateAccountPDA;
            proof {
                assert(v.spec_bytes() =~= data@.subrange(0, 1));
            }
            Some(v)
        } else if tag == 4 {
            if n < 9 {
                return None;
            }
            let amount = read_u64_le(data, 1);
            let v = DescriptorInstruction::TransferSol { amount };
            proof {
                assert(v.spec_bytes() =~= data@.subrange(0, 9));
            }
            Some(v)
        } else if tag == 5 {
            let v = DescriptorInstruction::VerifySigner;
            proof {
                assert(v.spec_bytes() =~= data@.subrange(0, 1));
            }
            Some(v)
        } else {
            None
        }
    }

    proof fn lemma_encoding_parses(v: Self, extra: Seq<u8>) {
        lemma_auto_spec_u64_to_from_le_bytes();
        assert((v.spec_bytes() + extra)[0] == v.spec_tag());
    }

    proof fn lemma_prefix_injective(a: Self, b: Self) {
        lemma_auto_spec_u64_to_from_le_bytes();
        assert(a.spec_bytes()[0] == a.spec_tag());
        assert(b.spec_bytes()[0] == b.spec_tag());
        assert(a.spec_tag() == b.spec_tag());
        match (a, b) {
            (
                DescriptorInstruction::WriteData { value: va },
                DescriptorInstruction::WriteData { value: vb },
            ) => {
                assert(a.spec_bytes() =~= b.spec_bytes());
                assert(a.spec_bytes().subrange(1, 9) =~= spec_u64_to_le_bytes(va));
                assert(b.spec_bytes().subrange(1, 9) =~= spec_u64_to_le_bytes(vb));
            },
            (
                DescriptorInstruction::TransferSol { amount: va },
                DescriptorInstruction::TransferSol { amount: vb },
            ) => {
                assert(a.spec_bytes() =~= b.spec_bytes());
                assert(a.spec_bytes().subrange(1, 9) =~= spec_u64_to_le_bytes(va));
                assert(b.spec_bytes().subrange(1, 9) =~= spec_u64_to_le_bytes(vb));
            },
            _ => {},
        }
    }
}

/// Logs an explanatory line and fails with `InvalidArgument` when the
/// condition does not hold.
pub fn check(condition: bool, msg: &str, scope: &mut Scope) -> (r: ProgramResult)
    ensures
        final(scope).metas == old(scope).metas,
        final(scope).settings == old(scope).settings,
        final(scope).receipt.result == old(scope).receipt.result,
        final(scope).receipt.call_stack == old(scope).receipt.call_stack,
        final(scope).receipt.log_datas == old(scope).receipt.log_datas,
        final(scope).receipt.return_data == old(scope).receipt.return_data,
        crate::receipt::spec_log_prefix(old(scope).receipt, final(scope).receipt),
        old(scope).receipt.return_data is None ==> final(scope).receipt.return_data is None,
        r is Ok <==> condition,
        r is Err ==> r == Err::<(), ProgramError>(ProgramError::InvalidArgument),
{
    if !condition {
        let mut line = String::from_str("Error: ");
        line.append(msg);
        scope.receipt.push_msg(line);
        return Err(ProgramError::InvalidArgument);
    }
    Ok(())
}

/// Whether the entry checks every contract runs first pass: a signing,
/// funded payer stands in front.
pub open spec fn spec_payer_checked(pre: Scope, accounts: Seq<AccountInfo>) -> bool {
    &&& accounts.len() > 0
    &&& accounts[0].is_signer
    &&& accounts[0].index < pre.spec_len()
    &&& pre.metas@[accounts[0].index as int].1.lamports >= 5000000
}

/// What the descriptor contract decides and does for one parsed
/// instruction, for the arms whose effects touch no other program.
pub open spec fn spec_descriptor_post(
    pre: Scope,
    post: Scope,
    accounts: Seq<AccountInfo>,
    ix: DescriptorInstruction,
    r: crate::errors::ProgramResult,
) -> bool {
    match ix {
        DescriptorInstruction::ReadToLog => {
            &&& post.metas == pre.metas
            &&& (accounts.len() < 2 ==> r == Err::<(), ProgramError>(
                ProgramError::NotEnoughAccountKeys,
            ))
            &&& (accounts.len() >= 2 && accounts[1].index < pre.spec_len() ==> (r is Ok
                <==> pre.metas@[accounts[1].index as int].1.data@.len() >= 8))
        },
        DescriptorInstruction::VerifySigner => {
            &&& (accounts.len() >= 2 ==> (r is Ok <==> accounts[1].is_signer) && post.metas
                == pre.metas)
            &&& (accounts.len() < 2 ==> r == Err::<(), ProgramError>(
                ProgramError::NotEnoughAccountKeys,
            ) && post.metas == pre.metas)
        },
        DescriptorInstruction::WriteData { value } => {
            &&& (r is Err ==> post.metas == pre.metas)
            &&& (accounts.len() < 2 ==> r == Err::<(), ProgramError>(
                ProgramError::NotEnoughAccountKeys,
            ))
            &&& (accounts.len() >= 2 && accounts[1].index < pre.spec_len()
                && accounts[1].is_writable && pre.metas@[accounts[1].index as int].1.data@.len()
                >= 8 ==> r is Ok)
            &&& (r is Ok ==> accounts.len() >= 2 && {
                let ci = accounts[1].index as int;
                &&& ci < pre.spec_len()
                &&& pre.metas@[ci].1.data@.len() >= 8
                &&& post.metas@[ci].1.data@ == vstd::bytes::spec_u64_to_le_bytes(value)
                    + pre.metas@[ci].1.data@.skip(8)
                &&& post.spec_len() == pre.spec_len()
                &&& forall|i: int|
                    0 <= i < pre.spec_len() && i != ci ==> #[trigger] post.metas@[i]
                        == pre.metas@[i]
            })
        },
        _ => true,
    }
}

/// The descriptor sample contract's processor.
pub struct Processor {}

impl Processor {
    pub fn process_instruction(
        program_id: &Pubkey,
        accounts: &Vec<AccountInfo>,
        instruction_data: &Vec<u8>,
        scope: &mut Scope,
    ) -> (r: ProgramResult)
        requires
            old(scope).spec_wf(),
            1 <= old(scope).spec_depth() <= MAX_CALL_DEPTH,
            forall|i: int|
                0 <= i < accounts@.len() ==> old(scope).spec_valid_info(#[trigger] accounts@[i]),
        ensures
            final(scope).spec_wf(),
            spec_same_shape(*old(scope), *final(scope)),
            final(scope).spec_depth() == old(scope).spec_depth(),
            final(scope).receipt.call_stack@ == old(scope).receipt.call_stack@,
            final(scope).receipt.result == old(scope).receipt.result,
            crate::receipt::spec_log_prefix(old(scope).receipt, final(scope).receipt),
        old(scope).receipt.return_data is None ==> final(scope).receipt.return_data is None,
            old(scope).receipt.return_data is None ==> final(scope).receipt.return_data is None,
            accounts@.len() == 0 ==> r == Err::<(), ProgramError>(
                ProgramError::NotEnoughAccountKeys,
            ),
            accounts@.len() > 0 && !accounts@[0].is_signer ==> r == Err::<(), ProgramError>(
                ProgramError::InvalidArgument,
            ),
            spec_payer_checked(*old(scope), accounts@) && !DescriptorInstruction::spec_parses(
                instruction_data@,
            ) ==> r == Err::<(), ProgramError>(ProgramError::InvalidInstructionData) && final(scope).metas == old(scope).metas,
            spec_payer_checked(*old(scope), accounts@) ==> forall|ix: DescriptorInstruction|
                (#[trigger] ix.spec_bytes()).len() <= instruction_data@.len() && ix.spec_bytes()
                    == instruction_data@.subrange(0, ix.spec_bytes().len() as int)
                    ==> spec_descriptor_post(*old(scope), *final(scope), accounts@, ix, r),
        decreases 4 - old(scope).spec_depth(), 7int,
    {
        let mut cursor: usize = 0;
        let payer = next_account_info(accounts, &mut cursor)?;
        check(payer.is_signer, "Payer is not signed", scope)?;
        check(payer.lamports(scope) >= 5000000, "Payer not funded", scope)?;
        let parsed = DescriptorInstruction::parse(instruction_data.as_slice());
        let instruction = match parsed {
            Some(ix) => ix,
            None => {
                proof {
                    assert forall|ix: DescriptorInstruction|
                        (#[trigger] ix.spec_bytes()).len() <= instruction_data@.len()
                            && ix.spec_bytes() == instruction_data@.subrange(
                            0,
                            ix.spec_bytes().len() as int,
                        ) implies spec_descriptor_post(
                        *old(scope),
                        *scope,
                        accounts@,
                        ix,
                        Err(ProgramError::InvalidInstructionData),
                    ) by {
                        let rest = instruction_data@.skip(ix.spec_bytes().len() as int);
                        DescriptorInstruction::lemma_encoding_parses(ix, rest);
                        assert(ix.spec_bytes() + rest =~= instruction_data@);
                        assert(false);
                    }
                }
                return Err(ProgramError::InvalidInstructionData);
            },
        };
        let ghost parsed_ix = instruction;
        let r = Self::run_parsed(program_id, accounts, &payer, instruction, scope);
        proof {
            assert forall|ix: DescriptorInstruction|
                (#[trigger] ix.spec_bytes()).len() <= instruction_data@.len() && ix.spec_bytes()
                    == instruction_data@.subrange(0, ix.spec_bytes().len() as int)
                    implies spec_descriptor_post(*old(scope), *scope, accounts@, ix, r) by {
                crate::codec::lemma_parse_unique(instruction_data@, ix, parsed_ix);
            }
        }
        r
    }

    /// Runs one already-decoded instruction for a checked payer.
    fn run_parsed(
        program_id: &Pubkey,
        accounts: &Vec<AccountInfo>,
        payer: &AccountInfo,
        instruction: DescriptorInstruction,
        scope: &mut Scope,
    ) -> (r: ProgramResult)
        requires
            old(scope).spec_wf(),
            1 <= old(scope).spec_depth() <= MAX_CALL_DEPTH,
            forall|i: int|
                0 <= i < accounts@.len() ==> old(scope).spec_valid_info(#[trigger] accounts@[i]),
            accounts@.len() > 0,
            *payer == accounts@[0],
        ensures
            final(scope).spec_wf(),
            spec_same_shape(*old(scope), *final(scope)),
            final(scope).spec_depth() == old(scope).spec_depth(),
            final(scope).receipt.call_stack@ == old(scope).receipt.call_stack@,
            final(scope).receipt.result == old(scope).receipt.result,
            crate::receipt::spec_log_prefix(old(scope).receipt, final(scope).receipt),
        old(scope).receipt.return_data is None ==> final(scope).receipt.return_data is None,
            old(scope).receipt.return_data is None ==> final(scope).receipt.return_data is None,
            spec_descriptor_post(*old(scope), *final(scope), accounts@, instruction, r),
        decreases 4 - old(scope).spec_depth(), 5int,
    {
        let mut cursor: usize = 1;
        match instruction {
            DescriptorInstruction::ReadToLog => {
                let counter_ai = next_account_info(accounts, &mut cursor)?;
                let counter = Counter::load(&counter_ai, scope)?;
                counter.log(scope);
                Ok(())
            },
            DescriptorInstruction::WriteData { value } => {
                let counter_ai = next_account_info(accounts, &mut cursor)?;
                let mut counter = Counter::load(&counter_ai, scope)?;
                check(counter_ai.is_writable, "Counter not writable", scope)?;
                counter.value = value;
                counter.save(&counter_ai, scope)?;
                Ok(())
            },
            DescriptorInstruction::CreateAccount => {
                let counter_ai = next_account_info(accounts, &mut cursor)?;
                let system_program = next_account_info(accounts, &mut cursor)?;
                check(counter_ai.is_signer, "Counter not a signer", scope)?;
                check(counter_ai.is_writable, "Counter not writable", scope)?;
                let counter = Counter::new();
                counter.create(program_id, payer, &counter_ai, &system_program, scope)?;
                let owner_now = counter_ai.owner(scope);
                check(owner_now.eq(program_id), "Counter owner program not assigned", scope)?;
                let len_now = counter_ai.data_len(scope);
                check(len_now == counter.size(), "Counter data not allocated", scope)
            },
            DescriptorInstruction::CreateAccountPDA => {
                let counter_ai = next_account_info(accounts, &mut cursor)?;
                let system_program = next_account_info(accounts, &mut cursor)?;
                let counter = Counter::new();
                check(counter_ai.is_writable, "Counter not writable", scope)?;
                counter.create_pda(program_id, payer, &counter_ai, &system_program, scope)?;
                let owner_now = counter_ai.owner(scope);
                check(owner_now.eq(program_id), "Counter owner program not assigned", scope)?;
                let len_now = counter_ai.data_len(scope);
                check(len_now == counter.size(), "Counter data not allocated", scope)
            },
            DescriptorInstruction::VerifySigner => {
                let signer_ai = next_account_info(accounts, &mut cursor)?;
                check(signer_ai.is_signer, "Signer not signed", scope)
            },
            DescriptorInstruction::TransferSol { amount } => {
                let recipient_ai = next_account_info(accounts, &mut cursor)?;
                let system_program = next_account_info(accounts, &mut cursor)?;
                check(payer.lamports(scope) >= amount, "Not enough Sol", scope)?;
                let balance_before_from = payer.lamports(scope);
                let balance_before_to = recipient_ai.lamports(scope);
                let idx = crate::system_instruction::transfer(
                    &payer.key,
                    &recipient_ai.key,
                    amount,
                );
                let mut infos: Vec<AccountInfo> = Vec::new();
                infos.push(payer.clone());
                infos.push(recipient_ai.clone());
                infos.push(system_program.clone());
                crate::invoke::invoke(&idx, &infos, scope)?;
                let from_now = payer.lamports(scope);
                check(
                    from_now == balance_before_from - amount,
                    "Lamports not charged from payer",
                    scope,
                )?;
                let to_now = recipient_ai.lamports(scope);
                check(
                    balance_before_to <= u64::MAX - amount && to_now == balance_before_to + amount,
                    "Lamports not transferred to recipient",
                    scope,
                )
            },
        }
    }
}

} // verus!
