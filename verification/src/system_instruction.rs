use crate::codec::{read_pubkey, read_u32_le, read_u64_le, write_pubkey, write_u32_le, write_u64_le, BorshCodec};
use crate::instruction::{AccountMeta, Instruction};
use crate::program_ids::system_program_id;
use crate::pubkey::Pubkey;
use vstd::bytes::{
    lemma_auto_spec_u32_to_from_le_bytes, lemma_auto_spec_u64_to_from_le_bytes,
    spec_u32_from_le_bytes, spec_u32_to_le_bytes, spec_u64_to_le_bytes,
};
use vstd::prelude::*;

verus! {

broadcast use crate::pubkey::lemma_pubkey_len;

/// The largest data size an account can be allocated: 10 MiB.
pub const MAX_PERMITTED_DATA_LENGTH: u64 = 10 * 1024 * 1024;

/// The instruction set of the built-in system program. The wire format
/// also names seed- and nonce-based operations this runtime does not
/// implement; those are recognized by tag, their payloads ignored, and
/// the processor refuses them with the generic error.
#[derive(Clone, Copy, Debug)]
pub enum SystemInstruction {
    CreateAccount { lamports: u64, space: u64, owner: Pubkey },
    Assign { owner: Pubkey },
    Transfer { lamports: u64 },
    Allocate { space: u64 },
    CreateAccountWithSeed,
    AdvanceNonceAccount,
    WithdrawNonceAccount,
    InitializeNonceAccount,
    AuthorizeNonceAccount,
    AllocateWithSeed,
    AssignWithSeed,
    TransferWithSeed,
    UpgradeNonceAccount,
}

/// Whether `tag` names a wire operation this runtime knows but does not
/// implement.
pub open spec fn spec_unimplemented_tag(tag: u32) -> bool {
    tag == 3 || tag == 4 || tag == 5 || tag == 6 || tag == 7 || tag == 9 || tag == 10 || tag == 11
        || tag == 12
}

impl SystemInstruction {
    /// The wire tag of each operation.
    pub open spec fn spec_tag(self) -> u32 {
        match self {
            SystemInstruction::CreateAccount { .. } => 0,
            SystemInstruction::Assign { .. } => 1,
            SystemInstruction::Transfer { .. } => 2,
            SystemInstruction::Allocate { .. } => 8,
            SystemInstruction::CreateAccountWithSeed => 3,
            SystemInstruction::AdvanceNonceAccount => 4,
            SystemInstruction::WithdrawNonceAccount => 5,
            SystemInstruction::InitializeNonceAccount => 6,
            SystemInstruction::AuthorizeNonceAccount => 7,
            SystemInstruction::AllocateWithSeed => 9,
            SystemInstruction::AssignWithSeed => 10,
            SystemInstruction::TransferWithSeed => 11,
            SystemInstruction::UpgradeNonceAccount => 12,
        }
    }

    /// Whether this operation is one the runtime refuses as unimplemented.
    pub open spec fn spec_is_unimplemented(self) -> bool {
        spec_unimplemented_tag(self.spec_tag())
    }
}

impl BorshCodec for SystemInstruction {
    open spec fn spec_bytes(&self) -> Seq<u8> {
        match *self {
            SystemInstruction::CreateAccount { lamports, space, owner } => spec_u32_to_le_bytes(0)
                + spec_u64_to_le_bytes(lamports) + spec_u64_to_le_bytes(space) + owner@,
            SystemInstruction::Assign { owner } => spec_u32_to_le_bytes(1) + owner@,
            SystemInstruction::Transfer { lamports } => spec_u32_to_le_bytes(2)
                + spec_u64_to_le_bytes(lamports),
            SystemInstruction::Allocate { space } => spec_u32_to_le_bytes(8)
                + spec_u64_to_le_bytes(space),
            _ => spec_u32_to_le_bytes(self.spec_tag()),
        }
    }

    open spec fn spec_parses(data: Seq<u8>) -> bool {
        data.len() >= 4 && {
            let tag = spec_u32_from_le_bytes(data.subrange(0, 4));
            ||| (tag == 0 && data.len() >= 52)
            ||| (tag == 1 && data.len() >= 36)
            ||| (tag == 2 && data.len() >= 12)
            ||| (tag == 8 && data.len() >= 12)
            ||| spec_unimplemented_tag(tag)
        }
    }

    fn write_bytes(&self, dst: &mut Vec<u8>) {
        match self {
            SystemInstruction::CreateAccount { lamports, space, owner } => {
                write_u32_le(dst, 0);
                write_u64_le(dst, *lamports);
                write_u64_le(dst, *space);
                write_pubkey(dst, owner);
            },
            SystemInstruction::Assign { owner } => {
                write_u32_le(dst, 1);
                write_pubkey(dst, owner);
            },
            SystemInstruction::Transfer { lamports } => {
                write_u32_le(dst, 2);
                write_u64_le(dst, *lamports);
            },
            SystemInstruction::Allocate { space } => {
                write_u32_le(dst, 8);
                write_u64_le(dst, *space);
            },
            SystemInstruction::CreateAccountWithSeed => {
                write_u32_le(dst, 3);
            },
            SystemInstruction::AdvanceNonceAccount => {
                write_u32_le(dst, 4);
            },
            SystemInstruction::WithdrawNonceAccount => {
                write_u32_le(dst, 5);
            },
            SystemInstruction::InitializeNonceAccount => {
                write_u32_le(dst, 6);
            },
            SystemInstruction::AuthorizeNonceAccount => {
                write_u32_le(dst, 7);
            },
            SystemInstruction::AllocateWithSeed => {
                write_u32_le(dst, 9);
            },
            SystemInstruction::AssignWithSeed => {
                write_u32_le(dst, 10);
            },
            SystemInstruction::TransferWithSeed => {
                write_u32_le(dst, 11);
            },
            SystemInstruction::UpgradeNonceAccount => {
                write_u32_le(dst, 12);
            },
        }
    }

    fn parse(data: &[u8]) -> (r: Option<Self>) {
        proof {
            lemma_auto_spec_u32_to_from_le_bytes();
            lemma_auto_spec_u64_to_from_le_bytes();
        }
        let n = data.len();
        if n < 4 {
            return None;
        }
        let tag = read_u32_le(data, 0);
        if tag == 0 {
            if n < 52 {
                return None;
            }
            let lamports = read_u64_le(data, 4);
            let space = read_u64_le(data, 12);
            let owner = read_pubkey(data, 20);
            let v = SystemInstruction::CreateAccount { lamports, space, owner };
            proof {
                assert(v.spec_bytes() =~= data@.subrange(0, 52));
            }
            Some(v)
        } else if tag == 1 {
            if n < 36 {
                return None;
            }
            let owner = read_pubkey(data, 4);
            let v = SystemInstruction::Assign { owner };
            proof {
                assert(v.spec_bytes() =~= data@.subrange(0, 36));
            }
            Some(v)
        } else if tag == 2 {
            if n < 12 {
                return None;
            }
            let lamports = read_u64_le(data, 4);
            let v = SystemInstruction::Transfer { lamports };
            proof {
                assert(v.spec_bytes() =~= data@.subrange(0, 12));
            }
            Some(v)
        } else if tag == 8 {
            if n < 12 {
                return None;
            }
            let space = read_u64_le(data, 4);
            let v = SystemInstruction::Allocate { space };
            proof {
                assert(v.spec_bytes() =~= data@.subrange(0, 12));
            }
            Some(v)
        } else if tag == 3 || tag == 4 || tag == 5 || tag == 6 || tag == 7 || tag == 9 || tag == 10
            || tag == 11 || tag == 12 {
            let v = if tag == 3 {
                SystemInstruction::CreateAccountWithSeed
            } else if tag == 4 {
                SystemInstruction::AdvanceNonceAccount
            } else if tag == 5 {
                SystemInstruction::WithdrawNonceAccount
            } else if tag == 6 {
                SystemInstruction::InitializeNonceAccount
            } else if tag == 7 {
                SystemInstruction::AuthorizeNonceAccount
            } else if tag == 9 {
                SystemInstruction::AllocateWithSeed
            } else if tag == 10 {
                SystemInstruction::AssignWithSeed
            } else if tag == 11 {
                SystemInstruction::TransferWithSeed
            } else {
                SystemInstruction::UpgradeNonceAccount
            };
            proof {
                assert(v.spec_bytes() =~= data@.subrange(0, 4));
            }
            Some(v)
        } else {
            None
        }
    }

    proof fn lemma_encoding_parses(v: Self, extra: Seq<u8>) {
        lemma_auto_spec_u32_to_from_le_bytes();
        lemma_auto_spec_u64_to_from_le_bytes();
        let s = v.spec_bytes() + extra;
        assert(s.subrange(0, 4) =~= spec_u32_to_le_bytes(v.spec_tag()));
    }

    proof fn lemma_prefix_injective(a: Self, b: Self) {
        lemma_auto_spec_u32_to_from_le_bytes();
        lemma_auto_spec_u64_to_from_le_bytes();
        let sa = a.spec_bytes();
        let sb = b.spec_bytes();
        assert(sa.subrange(0, 4) =~= spec_u32_to_le_bytes(a.spec_tag()));
        assert(sb.subrange(0, 4) =~= spec_u32_to_le_bytes(b.spec_tag()));
        assert(sa.subrange(0, 4) =~= sb.subrange(0, 4));
        assert(a.spec_tag() == b.spec_tag());
        match a {
            SystemInstruction::CreateAccount { lamports: la, space: pa, owner: oa } => {
                match b {
                    SystemInstruction::CreateAccount { lamports: lb, space: pb, owner: ob } => {
                        assert(sa =~= sb);
                        assert(sa.subrange(4, 12) =~= spec_u64_to_le_bytes(la));
                        assert(sb.subrange(4, 12) =~= spec_u64_to_le_bytes(lb));
                        assert(sa.subrange(12, 20) =~= spec_u64_to_le_bytes(pa));
                        assert(sb.subrange(12, 20) =~= spec_u64_to_le_bytes(pb));
                        assert(sa.subrange(20, 52) =~= oa@);
                        assert(sb.subrange(20, 52) =~= ob@);
                        crate::pubkey::lemma_pubkey_view_injective(oa, ob);
                    },
                    _ => {
                        assert(false);
                    },
                }
            },
            SystemInstruction::Assign { owner: oa } => {
                match b {
                    SystemInstruction::Assign { owner: ob } => {
                        assert(sa =~= sb);
                        assert(sa.subrange(4, 36) =~= oa@);
                        assert(sb.subrange(4, 36) =~= ob@);
                        crate::pubkey::lemma_pubkey_view_injective(oa, ob);
                    },
                    _ => {
                        assert(false);
                    },
                }
            },
            SystemInstruction::Transfer { lamports: la } => {
                match b {
                    SystemInstruction::Transfer { lamports: lb } => {
                        assert(sa =~= sb);
                        assert(sa.subrange(4, 12) =~= spec_u64_to_le_bytes(la));
                        assert(sb.subrange(4, 12) =~= spec_u64_to_le_bytes(lb));
                    },
                    _ => {
                        assert(false);
                    },
                }
            },
            SystemInstruction::Allocate { space: pa } => {
                match b {
                    SystemInstruction::Allocate { space: pb } => {
                        assert(sa =~= sb);
                        assert(sa.subrange(4, 12) =~= spec_u64_to_le_bytes(pa));
                        assert(sb.subrange(4, 12) =~= spec_u64_to_le_bytes(pb));
                    },
                    _ => {
                        assert(false);
                    },
                }
            },
            _ => {
                assert(!(a.spec_tag() == 0 || a.spec_tag() == 1 || a.spec_tag() == 2
                    || a.spec_tag() == 8));
                match b {
                    SystemInstruction::CreateAccount { .. } => {
                        assert(false);
                    },
                    SystemInstruction::Assign { .. } => {
                        assert(false);
                    },
                    SystemInstruction::Transfer { .. } => {
                        assert(false);
                    },
                    SystemInstruction::Allocate { .. } => {
                        assert(false);
                    },
                    _ => {},
                }
            },
        }
    }
}

/// Builds the system instruction that creates a funded account.
pub fn create_account(
    from_pubkey: &Pubkey,
    to_pubkey: &Pubkey,
    lamports: u64,
    space: u64,
    owner: &Pubkey,
) -> (r: Instruction)
    ensures
        r.program_id@ == crate::program_ids::SYSTEM_PROGRAM_ID_BYTES@,
        r.data@ == (SystemInstruction::CreateAccount {
            lamports,
            space,
            owner: *owner,
        }).spec_bytes(),
        r.accounts@.len() == 2,
        r.accounts@[0].pubkey == *from_pubkey,
        r.accounts@[0].is_signer == true,
        r.accounts@[0].is_writable == true,
        r.accounts@[1].pubkey == *to_pubkey,
        r.accounts@[1].is_signer == true,
        r.accounts@[1].is_writable == true,
{
    let si = SystemInstruction::CreateAccount { lamports, space, owner: owner.clone() };
    let data = crate::codec::encode_to_vec(&si);
    let mut accounts: Vec<AccountMeta> = Vec::new();
    accounts.push(AccountMeta::new(from_pubkey.clone(), true));
    accounts.push(AccountMeta::new(to_pubkey.clone(), true));
    Instruction { program_id: system_program_id(), accounts, data }
}

/// Builds the system instruction that moves lamports between accounts.
pub fn transfer(from_pubkey: &Pubkey, to_pubkey: &Pubkey, lamports: u64) -> (r: Instruction)
    ensures
        r.program_id@ == crate::program_ids::SYSTEM_PROGRAM_ID_BYTES@,
        r.data@ == (SystemInstruction::Transfer { lamports }).spec_bytes(),
        r.accounts@.len() == 2,
        r.accounts@[0].pubkey == *from_pubkey,
        r.accounts@[0].is_signer == true,
        r.accounts@[0].is_writable == true,
        r.accounts@[1].pubkey == *to_pubkey,
        r.accounts@[1].is_signer == false,
        r.accounts@[1].is_writable == true,
{
    let si = SystemInstruction::Transfer { lamports };
    let data = crate::codec::encode_to_vec(&si);
    let mut accounts: Vec<AccountMeta> = Vec::new();
    accounts.push(AccountMeta::new(from_pubkey.clone(), true));
    accounts.push(AccountMeta::new(to_pubkey.clone(), false));
    Instruction { program_id: system_program_id(), accounts, data }
}

/// Builds the system instruction that resizes an account's data.
pub fn allocate(pubkey: &Pubkey, space: u64) -> (r: Instruction)
    ensures
        r.program_id@ == crate::program_ids::SYSTEM_PROGRAM_ID_BYTES@,
        r.data@ == (SystemInstruction::Allocate { space }).spec_bytes(),
        r.accounts@.len() == 1,
        r.accounts@[0].pubkey == *pubkey,
        r.accounts@[0].is_signer == true,
        r.accounts@[0].is_writable == true,
{
    let si = SystemInstruction::Allocate { space };
    let data = crate::codec::encode_to_vec(&si);
    let mut accounts: Vec<AccountMeta> = Vec::new();
    accounts.push(AccountMeta::new(pubkey.clone(), true));
    Instruction { program_id: system_program_id(), accounts, data }
}

/// Builds the system instruction that hands an account to a new owner.
pub fn assign(pubkey: &Pubkey, owner: &Pubkey) -> (r: Instruction)
    ensures
        r.program_id@ == crate::program_ids::SYSTEM_PROGRAM_ID_BYTES@,
        r.data@ == (SystemInstruction::Assign { owner: *owner }).spec_bytes(),
        r.accounts@.len() == 1,
        r.accounts@[0].pubkey == *pubkey,
        r.accounts@[0].is_signer == true,
        r.accounts@[0].is_writable == true,
{
    let si = SystemInstruction::Assign { owner: owner.clone() };
    let data = crate::codec::encode_to_vec(&si);
    let mut accounts: Vec<AccountMeta> = Vec::new();
    accounts.push(AccountMeta::new(pubkey.clone(), true));
    Instruction { program_id: system_program_id(), accounts, data }
}

} // verus!
