use crate::account_info::{next_account_info, AccountInfo};
use crate::codec::{read_pubkey, read_u64_le, write_pubkey, write_u64_le, BorshCodec};
use crate::errors::{ProgramError, ProgramResult};
use crate::instruction::Instruction;
use crate::invoke::invoke_signed;
use crate::pubkey::{lemma_pubkey_view_injective, Pubkey};
use crate::scope::{spec_same_shape, Scope, MAX_CALL_DEPTH};
use vstd::bytes::{lemma_auto_spec_u64_to_from_le_bytes, spec_u64_to_le_bytes};
use vstd::prelude::*;

verus! {

broadcast use crate::pubkey::lemma_pubkey_len;

/// Failures of the liquidity-pool sample contract.
#[derive(Clone, Copy, Debug, PartialEq, Eq, Structural)]
pub enum PoolError {
    PoolNotExists,
    PoolAlreadyCreated,
    InvalidMintAccountsOrder,
    ZeroAmountNotAllowed,
    OnlyOneWayExchangeAllowed,
    NotAPoolOwner,
    InvalidPoolAccountPDA,
    InvalidVaultAccountPDA,
    InvalidAssociatedAccountPDA,
    InvalidVault,
    InvalidMint,
    NotEnoughLiquidity,
}

impl PoolError {
    /// The numeric code under which a pool failure travels.
    pub open spec fn spec_code(self) -> u32 {
        match self {
            PoolError::PoolNotExists => 0,
            PoolError::PoolAlreadyCreated => 1,
            PoolError::InvalidMintAccountsOrder => 2,
            PoolError::ZeroAmountNotAllowed => 3,
            PoolError::OnlyOneWayExchangeAllowed => 4,
            PoolError::NotAPoolOwner => 5,
            PoolError::InvalidPoolAccountPDA => 6,
            PoolError::InvalidVaultAccountPDA => 7,
            PoolError::InvalidAssociatedAccountPDA => 8,
            PoolError::InvalidVault => 9,
            PoolError::InvalidMint => 10,
            PoolError::NotEnoughLiquidity => 11,
        }
    }

    pub fn code(self) -> (r: u32)
        ensures
            r == self.spec_code(),
    {
        match self {
            PoolError::PoolNotExists => 0,
            PoolError::PoolAlreadyCreated => 1,
            PoolError::InvalidMintAccountsOrder => 2,
            PoolError::ZeroAmountNotAllowed => 3,
            PoolError::OnlyOneWayExchangeAllowed => 4,
            PoolError::NotAPoolOwner => 5,
            PoolError::InvalidPoolAccountPDA => 6,
            PoolError::InvalidVaultAccountPDA => 7,
            PoolError::InvalidAssociatedAccountPDA => 8,
            PoolError::InvalidVault => 9,
            PoolError::InvalidMint => 10,
            PoolError::NotEnoughLiquidity => 11,
        }
    }

    /// How this failure appears to the runtime.
    pub fn to_program_error(self) -> (r: ProgramError)
        ensures
            r == ProgramError::Custom(self.spec_code()),
    {
        ProgramError::Custom(self.code())
    }
}

/// The liquidity-pool contract's instruction set.
#[derive(Clone, Copy, Debug)]
pub enum PoolInstruction {
    Create,
    ProvideLiquidity { amount_left: u64, amount_right: u64 },
    Exchange { amount_left: u64, amount_right: u64 },
}

impl PoolInstruction {
    /// The wire tag of each variant.
    pub open spec fn spec_tag(self) -> u8 {
        match self {
            PoolInstruction::Create => 0,
            PoolInstruction::ProvideLiquidity { .. } => 1,
            PoolInstruction::Exchange { .. } => 2,
        }
    }
}

impl BorshCodec for PoolInstruction {
    open spec fn spec_bytes(&self) -> Seq<u8> {
        match *self {
            PoolInstruction::Create => seq![0u8],
            PoolInstruction::ProvideLiquidity { amount_left, amount_right } => seq![1u8]
                + spec_u64_to_le_bytes(amount_left) + spec_u64_to_le_bytes(amount_right),
            PoolInstruction::Exchange { amount_left, amount_right } => seq![2u8]
                + spec_u64_to_le_bytes(amount_left) + spec_u64_to_le_bytes(amount_right),
        }
    }

    open spec fn spec_parses(data: Seq<u8>) -> bool {
        data.len() >= 1 && {
            ||| data[0] == 0
            ||| (data[0] == 1 && data.len() >= 17)
            ||| (data[0] == 2 && data.len() >= 17)
        }
    }

    fn write_bytes(&self, dst: &mut Vec<u8>) {
        match self {
            PoolInstruction::Create => {
                dst.push(0u8);
                proof {
                    assert(old(dst)@.push(0u8) =~= old(dst)@ + seq![0u8]);
                }
            },
            PoolInstruction::ProvideLiquidity { amount_left, amount_right } => {
                dst.push(1u8);
                write_u64_le(dst, *amount_left);
                write_u64_le(dst, *amount_right);
                proof {
                    assert(old(dst)@.push(1u8) + spec_u64_to_le_bytes(*amount_left)
                        + spec_u64_to_le_bytes(*amount_right) =~= old(dst)@ + (seq![1u8]
                        + spec_u64_to_le_bytes(*amount_left) + spec_u64_to_le_bytes(
                        *amount_right,
                    )));
                }
            },
            PoolInstruction::Exchange { amount_left, amount_right } => {
                dst.push(2u8);
                write_u64_le(dst, *amount_left);
                write_u64_le(dst, *amount_right);
                proof {
                    assert(old(dst)@.push(2u8) + spec_u64_to_le_bytes(*amount_left)
                        + spec_u64_to_le_bytes(*amount_right) =~= old(dst)@ + (seq![2u8]
                        + spec_u64_to_le_bytes(*amount_left) + spec_u64_to_le_bytes(
                        *amount_right,
                    )));
                }
            },
        }
    }

    fn parse(data: &[u8]) -> (r: Option<Self>) {
        proof {
            lemma_auto_spec_u64_to_from_le_bytes();
        }
        let n = data.len();
        if n < 1 {
            return None;
        }
        let tag = data[0];
        if tag == 0 {
            let v = PoolInstruction::Create;
            proof {
                assert(v.spec_bytes() =~= data@.subrange(0, 1));
            }
            Some(v)
        } else if tag == 1 {
            if n < 17 {
                return None;
            }
            let amount_left = read_u64_le(data, 1);
            let amount_right = read_u64_le(data, 9);
            let v = PoolInstruction::ProvideLiquidity { amount_left, amount_right };
            proof {
                assert(v.spec_bytes() =~= data@.subrange(0, 17));
            }
            Some(v)
        } else if tag == 2 {
            if n < 17 {
                return None;
            }
            let amount_left = read_u64_le(data, 1);
            let amount_right = read_u64_le(data, 9);
            let v = PoolInstruction::Exchange { amount_left, amount_right };
            proof {
                assert(v.spec_bytes() =~= data@.subrange(0, 17));
            }
            Some(v)
        } else {
            None
        }
    }

    proof fn lemma_encoding_parses(v: Self, extra: Seq<u8>) {
        lemma_auto_spec_u64_to_from_le_bytes();
        assert((v.spec_bytes() + extra)[0] == v.spec_tag());
    }

    proof fn lemma_prefix_injective(a: Self, b: Self) {
        lemma_auto_spec_u64_to_from_le_bytes();
        assert(a.spec_bytes()[0] == a.spec_tag());
        assert(b.spec_bytes()[0] == b.spec_tag());
        assert(a.spec_tag() == b.spec_tag());
        match (a, b) {
            (
                PoolInstruction::ProvideLiquidity { amount_left: la, amount_right: ra },
                PoolInstruction::ProvideLiquidity { amount_left: lb, amount_right: rb },
            ) => {
                assert(a.spec_bytes() =~= b.spec_bytes());
                assert(a.spec_bytes().subrange(1, 9) =~= spec_u64_to_le_bytes(la));
                assert(b.spec_bytes().subrange(1, 9) =~= spec_u64_to_le_bytes(lb));
                assert(a.spec_bytes().subrange(9, 17) =~= spec_u64_to_le_bytes(ra));
                assert(b.spec_bytes().subrange(9, 17) =~= spec_u64_to_le_bytes(rb));
            },
            (
                PoolInstruction::Exchange { amount_left: la, amount_right: ra },
                PoolInstruction::Exchange { amount_left: lb, amount_right: rb },
            ) => {
                assert(a.spec_bytes() =~= b.spec_bytes());
                assert(a.spec_bytes().subrange(1, 9) =~= spec_u64_to_le_bytes(la));
                assert(b.spec_bytes().subrange(1, 9) =~= spec_u64_to_le_bytes(lb));
                assert(a.spec_bytes().subrange(9, 17) =~= spec_u64_to_le_bytes(ra));
                assert(b.spec_bytes().subrange(9, 17) =~= spec_u64_to_le_bytes(rb));
            },
            _ => {},
        }
    }
}

/// The pool's account state: parties, vaults and the two liquidity sides.
#[derive(Clone, Debug)]
pub struct Pool {
    pub owner: Pubkey,
    pub mint_left: Pubkey,
    pub mint_right: Pubkey,
    pub vault_left: Pubkey,
    pub vault_right: Pubkey,
    pub amount_left: u64,
    pub amount_right: u64,
    pub bump: u8,
}

impl BorshCodec for Pool {
    open spec fn spec_bytes(&self) -> Seq<u8> {
        self.owner@ + self.mint_left@ + self.mint_right@ + self.vault_left@ + self.vault_right@
            + spec_u64_to_le_bytes(self.amount_left) + spec_u64_to_le_bytes(self.amount_right)
            + seq![self.bump]
    }

    open spec fn spec_parses(data: Seq<u8>) -> bool {
        data.len() >= 177
    }

    fn write_bytes(&self, dst: &mut Vec<u8>) {
        write_pubkey(dst, &self.owner);
        write_pubkey(dst, &self.mint_left);
        write_pubkey(dst, &self.mint_right);
        write_pubkey(dst, &self.vault_left);
        write_pubkey(dst, &self.vault_right);
        write_u64_le(dst, self.amount_left);
        write_u64_le(dst, self.amount_right);
        dst.push(self.bump);
        proof {
            assert(final(dst)@ =~= old(dst)@ + self.spec_bytes());
        }
    }

    fn parse(data: &[u8]) -> (r: Option<Self>) {
        proof {
            lemma_auto_spec_u64_to_from_le_bytes();
        }
        let n = data.len();
        if n < 177 {
            return None;
        }
        let owner = read_pubkey(data, 0);
        let mint_left = read_pubkey(data, 32);
        let mint_right = read_pubkey(data, 64);
        let vault_left = read_pubkey(data, 96);
        let vault_right = read_pubkey(data, 128);
        let amount_left = read_u64_le(data, 160);
        let amount_right = read_u64_le(data, 168);
        let bump = data[176];
        let v = Pool {
            owner,
            mint_left,
            mint_right,
            vault_left,
            vault_right,
            amount_left,
            amount_right,
            bump,
        };
        proof {
            assert(v.spec_bytes() =~= data@.subrange(0, 177));
        }
        Some(v)
    }

    proof fn lemma_encoding_parses(v: Self, extra: Seq<u8>) {
        lemma_auto_spec_u64_to_from_le_bytes();
    }

    proof fn lemma_prefix_injective(a: Self, b: Self) {
        lemma_auto_spec_u64_to_from_le_bytes();
        let sa = a.spec_bytes();
        let sb = b.spec_bytes();
        assert(sa =~= sb);
        assert(sa.subrange(0, 32) =~= a.owner@);
        assert(sb.subrange(0, 32) =~= b.owner@);
        assert(sa.subrange(32, 64) =~= a.mint_left@);
        assert(sb.subrange(32, 64) =~= b.mint_left@);
        assert(sa.subrange(64, 96) =~= a.mint_right@);
        assert(sb.subrange(64, 96) =~= b.mint_right@);
        assert(sa.subrange(96, 128) =~= a.vault_left@);
        assert(sb.subrange(96, 128) =~= b.vault_left@);
        assert(sa.subrange(128, 160) =~= a.vault_right@);
        assert(sb.subrange(128, 160) =~= b.vault_right@);
        assert(sa.subrange(160, 168) =~= spec_u64_to_le_bytes(a.amount_left));
        assert(sb.subrange(160, 168) =~= spec_u64_to_le_bytes(b.amount_left));
        assert(sa.subrange(168, 176) =~= spec_u64_to_le_bytes(a.amount_right));
        assert(sb.subrange(168, 176) =~= spec_u64_to_le_bytes(b.amount_right));
        assert(sa[176] == a.bump);
        assert(sb[176] == b.bump);
        lemma_pubkey_view_injective(a.owner, b.owner);
        lemma_pubkey_view_injective(a.mint_left, b.mint_left);
        lemma_pubkey_view_injective(a.mint_right, b.mint_right);
        lemma_pubkey_view_injective(a.vault_left, b.vault_left);
        lemma_pubkey_view_injective(a.vault_right, b.vault_right);
    }
}

/// The ASCII bytes of the seed word `pool`.
pub fn pool_seed_text() -> (r: Vec<u8>)
    ensures
        r@ =~= seq![112u8, 111u8, 111u8, 108u8],
{
    let mut v: Vec<u8> = Vec::new();
    v.push(112);
    v.push(111);
    v.push(111);
    v.push(108);
    proof {
        assert(v@ =~= seq![112u8, 111u8, 111u8, 108u8]);
    }
    v
}

impl Pool {
    pub fn new(
        owner: Pubkey,
        mint_left: Pubkey,
        mint_right: Pubkey,
        vault_left: Pubkey,
        vault_right: Pubkey,
    ) -> (r: Pool)
        ensures
            r.owner == owner,
            r.mint_left == mint_left,
            r.mint_right == mint_right,
            r.vault_left == vault_left,
            r.vault_right == vault_right,
            r.amount_left == 0,
            r.amount_right == 0,
            r.bump == 0,
    {
        Pool {
            owner,
            mint_left,
            mint_right,
            vault_left,
            vault_right,
            amount_left: 0,
            amount_right: 0,
            bump: 0,
        }
    }

    /// The encoded size of a pool.
    pub fn size(&self) -> (r: usize)
        ensures
            r == 177,
    {
        177
    }

    /// Reads the pool stored in an account.
    pub fn load(ai: &AccountInfo, scope: &Scope) -> (r: Result<Pool, ProgramError>)
        requires
            scope.spec_valid_info(*ai),
        ensures
            r is Ok <==> scope.metas@[ai.index as int].1.data@.len() >= 177,
            r matches Ok(p) ==> p.spec_bytes() == scope.metas@[ai.index as int].1.data@.subrange(
                0,
                177,
            ),
            r is Err ==> r == Err::<Pool, ProgramError>(ProgramError::BorshIoError),
    {
        proof {
            lemma_auto_spec_u64_to_from_le_bytes();
        }
        let data = ai.data(scope);
        match Pool::parse(data.as_slice()) {
            Some(p) => {
                proof {
                    assert(p.spec_bytes().len() == 177);
                }
                Ok(p)
            },
            None => Err(ProgramError::BorshIoError),
        }
    }

    /// Writes the pool over the front of an account's data, which must be
    /// large enough to hold it.
    pub fn save(&self, ai: &AccountInfo, scope: &mut Scope) -> (r: ProgramResult)
        requires
            old(scope).spec_valid_info(*ai),
        ensures
            old(scope).spec_wf() ==> final(scope).spec_wf(),
            spec_same_shape(*old(scope), *final(scope)),
            final(scope).receipt == old(scope).receipt,
            r is Ok <==> old(scope).metas@[ai.index as int].1.data@.len() >= 177,
            r is Err ==> r == Err::<(), ProgramError>(ProgramError::BorshIoError) && final(scope).metas == old(scope).metas,
            r is Ok ==> {
                &&& final(scope).spec_len() == old(scope).spec_len()
                &&& forall|i: int|
                    0 <= i < old(scope).spec_len() && i != ai.index ==> #[trigger] final(scope).metas@[i] == old(scope).metas@[i]
                &&& final(scope).metas@[ai.index as int].0 == old(scope).metas@[ai.index as int].0
                &&& final(scope).metas@[ai.index as int].1.data@ == self.spec_bytes() + old(scope).metas@[ai.index as int].1.data@.skip(177)
                &&& final(scope).metas@[ai.index as int].1.lamports == old(scope).metas@[ai.index as int].1.lamports
                &&& final(scope).metas@[ai.index as int].1.owner == old(scope).metas@[ai.index as int].1.owner
            },
    {
        proof {
            lemma_auto_spec_u64_to_from_le_bytes();
            assert(self.spec_bytes().len() == 177);
        }
        let data = ai.data(scope);
        let n = data.len();
        if n < 177 {
            return Err(ProgramError::BorshIoError);
        }
        let mut fresh: Vec<u8> = Vec::new();
        self.write_bytes(&mut fresh);
        proof {
            assert(Seq::<u8>::empty() + self.spec_bytes() =~= self.spec_bytes());
        }
        let mut i: usize = 177;
        while i < n
            invariant
                177 <= i <= n,
                n == data@.len(),
                self.spec_bytes().len() == 177,
                fresh@ == self.spec_bytes() + data@.subrange(177, i as int),
            decreases n - i,
        {
            fresh.push(data[i]);
            proof {
                assert(self.spec_bytes() + data@.subrange(177, i as int) + seq![data@[i as int]]
                    =~= self.spec_bytes() + data@.subrange(177, i + 1));
            }
            i += 1;
        }
        proof {
            assert(data@.subrange(177, n as int) =~= data@.skip(177));
        }
        scope.set_data_at(ai.index, fresh);
        proof {
            assert forall|i2: int| 0 <= i2 < scope.spec_len() implies (
            #[trigger] scope.metas@[i2]).0 == old(scope).metas@[i2].0
                && scope.metas@[i2].1.executable == old(scope).metas@[i2].1.executable
                && scope.metas@[i2].1.package == old(scope).metas@[i2].1.package by {}
            if old(scope).spec_wf() {
                assert(scope.spec_wf());
            }
        }
        Ok(())
    }

    /// The derivation seeds of a pool account.
    fn seeds_for(owner: &Pubkey, mint_left: &Pubkey, mint_right: &Pubkey, program_id: &Pubkey) -> (r:
        Vec<Vec<u8>>)
        ensures
            r.deep_view() == seq![
                seq![112u8, 111u8, 111u8, 108u8],
                owner@,
                mint_left@,
                mint_right@,
                program_id@,
            ],
    {
        let mut seeds: Vec<Vec<u8>> = Vec::new();
        seeds.push(pool_seed_text());
        seeds.push(crate::pubkey::clone_bytes(owner.as_bytes().as_slice()));
        seeds.push(crate::pubkey::clone_bytes(mint_left.as_bytes().as_slice()));
        seeds.push(crate::pubkey::clone_bytes(mint_right.as_bytes().as_slice()));
        seeds.push(crate::pubkey::clone_bytes(program_id.as_bytes().as_slice()));
        proof {
            assert(seeds.deep_view() =~~= seq![
                seq![112u8, 111u8, 111u8, 108u8],
                owner@,
                mint_left@,
                mint_right@,
                program_id@,
            ]);
        }
        seeds
    }

    /// The pool address derived for these parties, when one is derivable.
    pub fn try_find_address(
        program_id: &Pubkey,
        owner: &Pubkey,
        mint_left: &Pubkey,
        mint_right: &Pubkey,
    ) -> (r: Option<(Pubkey, u8)>)
        ensures
            match r {
                Some(p) => crate::pubkey::spec_try_find_program_address(
                    seq![
                        seq![112u8, 111u8, 111u8, 108u8],
                        owner@,
                        mint_left@,
                        mint_right@,
                        program_id@,
                    ],
                    program_id@,
                ) == Some((p.0@, p.1)),
                None => crate::pubkey::spec_try_find_program_address(
                    seq![
                        seq![112u8, 111u8, 111u8, 108u8],
                        owner@,
                        mint_left@,
                        mint_right@,
                        program_id@,
                    ],
                    program_id@,
                ) is None,
            },
    {
        let seeds = Pool::seeds_for(owner, mint_left, mint_right, program_id);
        Pubkey::try_find_program_address(&seeds, program_id)
    }

    /// The pool address derived for these parties.
    pub fn find_address(
        program_id: &Pubkey,
        owner: &Pubkey,
        mint_left: &Pubkey,
        mint_right: &Pubkey,
    ) -> (r: Pubkey)
        requires
            crate::pubkey::spec_try_find_program_address(
                seq![
                    seq![112u8, 111u8, 111u8, 108u8],
                    owner@,
                    mint_left@,
                    mint_right@,
                    program_id@,
                ],
                program_id@,
            ) is Some,
        ensures
            Some(r@) == (match crate::pubkey::spec_try_find_program_address(
                seq![
                    seq![112u8, 111u8, 111u8, 108u8],
                    owner@,
                    mint_left@,
                    mint_right@,
                    program_id@,
                ],
                program_id@,
            ) {
                Some(p) => Some(p.0),
                None => None,
            }),
    {
        let seeds = Pool::seeds_for(owner, mint_left, mint_right, program_id);
        let found = Pubkey::find_program_address(&seeds, program_id);
        found.0
    }

    /// The bump of the derived pool address for these parties.
    pub fn find_bump(
        program_id: &Pubkey,
        owner: &Pubkey,
        mint_left: &Pubkey,
        mint_right: &Pubkey,
    ) -> (r: u8)
        requires
            crate::pubkey::spec_try_find_program_address(
                seq![
                    seq![112u8, 111u8, 111u8, 108u8],
                    owner@,
                    mint_left@,
                    mint_right@,
                    program_id@,
                ],
                program_id@,
            ) is Some,
        ensures
            Some(r) == (match crate::pubkey::spec_try_find_program_address(
                seq![
                    seq![112u8, 111u8, 111u8, 108u8],
                    owner@,
                    mint_left@,
                    mint_right@,
                    program_id@,
                ],
                program_id@,
            ) {
                Some(p) => Some(p.1),
                None => None,
            }),
    {
        let seeds = Pool::seeds_for(owner, mint_left, mint_right, program_id);
        let found = Pubkey::find_program_address(&seeds, program_id);
        found.1
    }

    /// Creates the pool's account at its derived address, recording the
    /// bump used.
    pub fn create_pda(
        &mut self,
        program_id: &Pubkey,
        payer: &AccountInfo,
        ai: &AccountInfo,
        system_program: &AccountInfo,
        scope: &mut Scope,
    ) -> (r: ProgramResult)
        requires
            old(scope).spec_wf(),
            1 <= old(scope).spec_depth() <= MAX_CALL_DEPTH,
            old(scope).spec_valid_info(*payer),
            old(scope).spec_valid_info(*ai),
            old(scope).spec_valid_info(*system_program),
        ensures
            final(scope).spec_wf(),
            spec_same_shape(*old(scope), *final(scope)),
            final(scope).spec_depth() == old(scope).spec_depth(),
            final(scope).receipt.call_stack@ == old(scope).receipt.call_stack@,
            final(scope).receipt.result == old(scope).receipt.result,
            crate::receipt::spec_log_prefix(old(scope).receipt, final(scope).receipt),
        old(scope).receipt.return_data is None ==> final(scope).receipt.return_data is None,
            old(scope).receipt.return_data is None ==> final(scope).receipt.return_data is None,
        decreases 4 - old(scope).spec_depth(), 4int,
    {
        let seeds = Pool::seeds_for(&payer.key, &self.mint_left, &self.mint_right, program_id);
        let bump: u8;
        let key: Pubkey;
        match Pubkey::try_find_program_address(&seeds, program_id) {
            None => {
                return Err(PoolError::InvalidPoolAccountPDA.to_program_error());
            },
            Some(p) => {
                key = p.0;
                bump = p.1;
            },
        }
        if !key.eq(&ai.key) {
            return Err(PoolError::InvalidPoolAccountPDA.to_program_error());
        }
        self.bump = bump;
        let mut bump_seed: Vec<u8> = Vec::new();
        bump_seed.push(bump);
        let signing = crate::pubkey::seeds_with_extra(&seeds, bump_seed);
        let mut signers: Vec<Vec<Vec<u8>>> = Vec::new();
        signers.push(signing);
        let rent = scope.get_rent();
        let min = rent.minimum_balance(177);
        let idx = crate::system_instruction::create_account(
            &payer.key,
            &ai.key,
            min,
            177,
            program_id,
        );
        let mut infos: Vec<AccountInfo> = Vec::new();
        infos.push(payer.clone());
        infos.push(ai.clone());
        infos.push(system_program.clone());
        invoke_signed(&idx, &infos, &signers, scope)
    }

    /// A nested call signed with the pool account's derivation seeds.
    pub fn invoke_signed(
        &self,
        pool_ai: &AccountInfo,
        idx: &Instruction,
        infos: &Vec<AccountInfo>,
        scope: &mut Scope,
    ) -> (r: ProgramResult)
        requires
            old(scope).spec_wf(),
            1 <= old(scope).spec_depth() <= MAX_CALL_DEPTH,
            old(scope).spec_valid_info(*pool_ai),
            forall|i: int|
                0 <= i < infos@.len() ==> old(scope).spec_valid_info(#[trigger] infos@[i]),
        ensures
            final(scope).spec_wf(),
            spec_same_shape(*old(scope), *final(scope)),
            final(scope).spec_depth() == old(scope).spec_depth(),
            final(scope).receipt.call_stack@ == old(scope).receipt.call_stack@,
            final(scope).receipt.result == old(scope).receipt.result,
            crate::receipt::spec_log_prefix(old(scope).receipt, final(scope).receipt),
        old(scope).receipt.return_data is None ==> final(scope).receipt.return_data is None,
            old(scope).receipt.return_data is None ==> final(scope).receipt.return_data is None,
        decreases 4 - old(scope).spec_depth(), 4int,
    {
        let pool_owner = pool_ai.owner(scope);
        let seeds = Pool::seeds_for(&self.owner, &self.mint_left, &self.mint_right, &pool_owner);
        let mut bump_seed: Vec<u8> = Vec::new();
        bump_seed.push(self.bump);
        let signing = crate::pubkey::seeds_with_extra(&seeds, bump_seed);
        let mut signers: Vec<Vec<Vec<u8>>> = Vec::new();
        signers.push(signing);
        invoke_signed(idx, infos, &signers, scope)
    }

    /// Fails unless the four accounts are the pool's declared mints and
    /// vaults, in order.
    pub fn validate(
        &self,
        mint_left: &AccountInfo,
        mint_right: &AccountInfo,
        vault_left: &AccountInfo,
        vault_right: &AccountInfo,
    ) -> (r: ProgramResult)
        ensures
            r is Ok <==> self.mint_left@ == mint_left.key@ && self.mint_right@ == mint_right.key@
                && self.vault_left@ == vault_left.key@ && self.vault_right@ == vault_right.key@,
            r is Err ==> r == Err::<(), ProgramError>(
                ProgramError::Custom(PoolError::InvalidMint.spec_code()),
            ) || r == Err::<(), ProgramError>(
                ProgramError::Custom(PoolError::InvalidVault.spec_code()),
            ),
    {
        if !self.mint_left.eq(&mint_left.key) {
            return Err(PoolError::InvalidMint.to_program_error());
        }
        if !self.mint_right.eq(&mint_right.key) {
            return Err(PoolError::InvalidMint.to_program_error());
        }
        if !self.vault_left.eq(&vault_left.key) {
            return Err(PoolError::InvalidVault.to_program_error());
        }
        if !self.vault_right.eq(&vault_right.key) {
            return Err(PoolError::InvalidVault.to_program_error());
        }
        Ok(())
    }
}

/// The amount the pool pays out for `amount_in` units of the other side:
/// the constant-product rule, rounded down.
pub fn exchange_amount(amount_in: u64, pool_in: u64, pool_out: u64) -> (r: u64)
    requires
        amount_in > 0,
        pool_in + amount_in <= u64::MAX,
    ensures
        r == (amount_in * pool_out) as int / (pool_in + amount_in) as int,
{
    proof {
        let x = amount_in as nat;
        let y = pool_out as nat;
        assert(x * y <= (u64::MAX as nat) * (u64::MAX as nat) && (u64::MAX as nat) * (
        u64::MAX as nat) < u128::MAX as nat) by (nonlinear_arith)
            requires
                x <= u64::MAX as nat,
                y <= u64::MAX as nat,
        ;
    }
    let num: u128 = (amount_in as u128) * (pool_out as u128);
    let den: u128 = (pool_in as u128) + (amount_in as u128);
    let wide: u128 = num / den;
    proof {
        let a = amount_in as int;
        let po = pool_out as int;
        let d = (pool_in + amount_in) as int;
        assert((a * po) / d <= po && (a * po) / d >= 0) by (nonlinear_arith)
            requires
                a >= 1,
                po >= 0,
                d >= a,
        ;
    }
    wide as u64
}

/// The one-sided exchange decision: the constant-product payout, or the
/// refusal, with its exact code, when the pool cannot cover it.
pub fn exchange_payout(amount_in: u64, pool_in: u64, pool_out: u64) -> (r: Result<
    u64,
    ProgramError,
>)
    requires
        amount_in > 0,
        pool_in + amount_in <= u64::MAX,
    ensures
        ({
            let amount_out = (amount_in * pool_out) as int / (pool_in + amount_in) as int;
            if amount_out < pool_out {
                r == Ok::<u64, ProgramError>(amount_out as u64)
            } else {
                r == Err::<u64, ProgramError>(
                    ProgramError::Custom(PoolError::NotEnoughLiquidity.spec_code()),
                )
            }
        }),
{
    let amount_out = exchange_amount(amount_in, pool_in, pool_out);
    if pool_out <= amount_out {
        return Err(PoolError::NotEnoughLiquidity.to_program_error());
    }
    Ok(amount_out)
}

/// The matching amount for added liquidity: keeps the pool's ratio,
/// rounded down. Fails when the product overflows the balance type.
pub fn liquidity_amount(amount_left: u64, pool_left: u64, pool_right: u64) -> (r: Result<
    u64,
    ProgramError,
>)
    requires
        pool_left > 0,
    ensures
        r matches Ok(v) ==> v == (pool_right * amount_left) as int / pool_left as int && (
        pool_right * amount_left) as int / pool_left as int <= u64::MAX,
        r is Err ==> (pool_right * amount_left) as int / pool_left as int > u64::MAX && r
            == Err::<u64, ProgramError>(ProgramError::InvalidArgument),
{
    proof {
        let x = pool_right as nat;
        let y = amount_left as nat;
        assert(x * y <= (u64::MAX as nat) * (u64::MAX as nat) && (u64::MAX as nat) * (
        u64::MAX as nat) < u128::MAX as nat) by (nonlinear_arith)
            requires
                x <= u64::MAX as nat,
                y <= u64::MAX as nat,
        ;
    }
    let num: u128 = (pool_right as u128) * (amount_left as u128);
    let den: u128 = pool_left as u128;
    let wide: u128 = num / den;
    proof {
        let a = pool_right as int;
        let b = amount_left as int;
        let d = pool_left as int;
        assert((a * b) >= 0 && (a * b) / d >= 0) by (nonlinear_arith)
            requires
                a >= 0,
                b >= 0,
                d >= 1,
        ;
    }
    if wide > u64::MAX as u128 {
        return Err(ProgramError::InvalidArgument);
    }
    Ok(wide as u64)
}

/// What the pool contract decides and does for one parsed instruction,
/// for the clauses decidable without the token program's own contracts:
/// the one-sided-exchange rule and the pool account's stored update.
pub open spec fn spec_pool_post(
    pre: Scope,
    post: Scope,
    accounts: Seq<AccountInfo>,
    ix: PoolInstruction,
    r: crate::errors::ProgramResult,
) -> bool {
    match ix {
        PoolInstruction::Exchange { amount_left, amount_right } => {
            &&& (amount_left == 0 && amount_right == 0 ==> r == Err::<(), ProgramError>(
                ProgramError::Custom(3),
            ) && post.metas == pre.metas)
            &&& (amount_left > 0 && amount_right > 0 ==> r == Err::<(), ProgramError>(
                ProgramError::Custom(4),
            ) && post.metas == pre.metas)
            &&& (amount_left > 0 && amount_right == 0 && r is Ok ==> accounts.len() >= 6 && {
                let pi = accounts[5].index as int;
                &&& pi < pre.spec_len()
                &&& pre.metas@[pi].1.data@.len() >= 177
                &&& post.metas@[pi].1.data@.len() >= 177
                &&& forall|p: Pool|
                    (#[trigger] p.spec_bytes()) == pre.metas@[pi].1.data@.subrange(0, 177) ==> {
                        let amount_out = (amount_left * p.amount_right) as int / (p.amount_left
                            + amount_left) as int;
                        &&& p.amount_left + amount_left <= u64::MAX
                        &&& amount_out < p.amount_right
                        &&& post.metas@[pi].1.data@.subrange(0, 177) == (Pool {
                            amount_left: (p.amount_left + amount_left) as u64,
                            amount_right: (p.amount_right - amount_out) as u64,
                            ..p
                        }).spec_bytes()
                    }
            })
            &&& (amount_left == 0 && amount_right > 0 && r is Ok ==> accounts.len() >= 6 && {
                let pi = accounts[5].index as int;
                &&& pi < pre.spec_len()
                &&& pre.metas@[pi].1.data@.len() >= 177
                &&& post.metas@[pi].1.data@.len() >= 177
                &&& forall|p: Pool|
                    (#[trigger] p.spec_bytes()) == pre.metas@[pi].1.data@.subrange(0, 177) ==> {
                        let amount_out = (amount_right * p.amount_left) as int / (p.amount_right
                            + amount_right) as int;
                        &&& p.amount_right + amount_right <= u64::MAX
                        &&& amount_out < p.amount_left
                        &&& post.metas@[pi].1.data@.subrange(0, 177) == (Pool {
                            amount_left: (p.amount_left - amount_out) as u64,
                            amount_right: (p.amount_right + amount_right) as u64,
                            ..p
                        }).spec_bytes()
                    }
            })
        },
        PoolInstruction::ProvideLiquidity { amount_left, amount_right } => r is Ok
            ==> accounts.len() >= 3 && {
            let pi = accounts[2].index as int;
            &&& pi < pre.spec_len()
            &&& pre.metas@[pi].1.data@.len() >= 177
            &&& post.metas@[pi].1.data@.len() >= 177
            &&& forall|p: Pool|
                (#[trigger] p.spec_bytes()) == pre.metas@[pi].1.data@.subrange(0, 177) ==> {
                    let matched = if p.amount_left > 0 {
                        (p.amount_right * amount_left) as int / p.amount_left as int
                    } else {
                        amount_right as int
                    };
                    &&& p.owner@ == accounts[0].key@
                    &&& p.amount_left + amount_left <= u64::MAX
                    &&& p.amount_right + matched <= u64::MAX
                    &&& post.metas@[pi].1.data@.subrange(0, 177) == (Pool {
                        amount_left: (p.amount_left + amount_left) as u64,
                        amount_right: (p.amount_right + matched) as u64,
                        ..p
                    }).spec_bytes()
                }
        },
        _ => true,
    }
}

/// The liquidity-pool sample contract's processor.
pub struct Processor {}

impl Processor {
    pub fn process_instruction(
        program_id: &Pubkey,
        accounts: &Vec<AccountInfo>,
        instruction_data: &Vec<u8>,
        scope: &mut Scope,
    ) -> (r: ProgramResult)
        requires
            old(scope).spec_wf(),
            1 <= old(scope).spec_depth() <= MAX_CALL_DEPTH,
            forall|i: int|
                0 <= i < accounts@.len() ==> old(scope).spec_valid_info(#[trigger] accounts@[i]),
        ensures
            final(scope).spec_wf(),
            spec_same_shape(*old(scope), *final(scope)),
            final(scope).spec_depth() == old(scope).spec_depth(),
            final(scope).receipt.call_stack@ == old(scope).receipt.call_stack@,
            final(scope).receipt.result == old(scope).receipt.result,
            crate::receipt::spec_log_prefix(old(scope).receipt, final(scope).receipt),
        old(scope).receipt.return_data is None ==> final(scope).receipt.return_data is None,
            old(scope).receipt.return_data is None ==> final(scope).receipt.return_data is None,
            accounts@.len() == 0 ==> r == Err::<(), ProgramError>(
                ProgramError::NotEnoughAccountKeys,
            ),
            accounts@.len() > 0 && !accounts@[0].is_signer ==> r == Err::<(), ProgramError>(
                ProgramError::InvalidArgument,
            ),
            crate::descriptor::spec_payer_checked(*old(scope), accounts@)
                && !PoolInstruction::spec_parses(instruction_data@) ==> r == Err::<
                (),
                ProgramError,
            >(ProgramError::InvalidInstructionData) && final(scope).metas == old(scope).metas,
            crate::descriptor::spec_payer_checked(*old(scope), accounts@) ==> forall|
                ix: PoolInstruction,
            |
                (#[trigger] ix.spec_bytes()).len() <= instruction_data@.len() && ix.spec_bytes()
                    == instruction_data@.subrange(0, ix.spec_bytes().len() as int)
                    ==> spec_pool_post(*old(scope), *final(scope), accounts@, ix, r),
        decreases 4 - old(scope).spec_depth(), 7int,
    {
        let mut cursor: usize = 0;
        let payer = next_account_info(accounts, &mut cursor)?;
        crate::descriptor::check(payer.is_signer, "Payer is not signed", scope)?;
        crate::descriptor::check(payer.lamports(scope) >= 5000000, "Payer not funded", scope)?;
        let parsed = PoolInstruction::parse(instruction_data.as_slice());
        let instruction = match parsed {
            Some(ix) => ix,
            None => {
                proof {
                    assert forall|ix: PoolInstruction|
                        (#[trigger] ix.spec_bytes()).len() <= instruction_data@.len()
                            && ix.spec_bytes() == instruction_data@.subrange(
                            0,
                            ix.spec_bytes().len() as int,
                        ) implies spec_pool_post(
                        *old(scope),
                        *scope,
                        accounts@,
                        ix,
                        Err(ProgramError::InvalidInstructionData),
                    ) by {
                        let rest = instruction_data@.skip(ix.spec_bytes().len() as int);
                        PoolInstruction::lemma_encoding_parses(ix, rest);
                        assert(ix.spec_bytes() + rest =~= instruction_data@);
                        assert(false);
                    }
                }
                return Err(ProgramError::InvalidInstructionData);
            },
        };
        let ghost parsed_ix = instruction;
        let r = Self::run_parsed(program_id, accounts, &payer, instruction, scope);
        proof {
            assert forall|ix: PoolInstruction|
                (#[trigger] ix.spec_bytes()).len() <= instruction_data@.len() && ix.spec_bytes()
                    == instruction_data@.subrange(0, ix.spec_bytes().len() as int)
                    implies spec_pool_post(*old(scope), *scope, accounts@, ix, r) by {
                crate::codec::lemma_parse_unique(instruction_data@, ix, parsed_ix);
            }
        }
        r
    }

    /// Runs one already-decoded instruction for a checked payer.
    #[verifier::spinoff_prover]
    #[verifier::rlimit(100)]
    fn run_parsed(
        program_id: &Pubkey,
        accounts: &Vec<AccountInfo>,
        payer: &AccountInfo,
        instruction: PoolInstruction,
        scope: &mut Scope,
    ) -> (r: ProgramResult)
        requires
            old(scope).spec_wf(),
            1 <= old(scope).spec_depth() <= MAX_CALL_DEPTH,
            forall|i: int|
                0 <= i < accounts@.len() ==> old(scope).spec_valid_info(#[trigger] accounts@[i]),
            accounts@.len() > 0,
            *payer == accounts@[0],
        ensures
            final(scope).spec_wf(),
            spec_same_shape(*old(scope), *final(scope)),
            final(scope).spec_depth() == old(scope).spec_depth(),
            final(scope).receipt.call_stack@ == old(scope).receipt.call_stack@,
            final(scope).receipt.result == old(scope).receipt.result,
            crate::receipt::spec_log_prefix(old(scope).receipt, final(scope).receipt),
        old(scope).receipt.return_data is None ==> final(scope).receipt.return_data is None,
            old(scope).receipt.return_data is None ==> final(scope).receipt.return_data is None,
            spec_pool_post(*old(scope), *final(scope), accounts@, instruction, r),
        decreases 4 - old(scope).spec_depth(), 6int,
    {
        let mut cursor: usize = 1;
        match instruction {
            PoolInstruction::Create => {
                crate::log::sol_log("Create new pool instruction", scope);
                let system_program = next_account_info(accounts, &mut cursor)?;
                let token_program = next_account_info(accounts, &mut cursor)?;
                let sysvar = next_account_info(accounts, &mut cursor)?;
                let pool_ai = next_account_info(accounts, &mut cursor)?;
                if pool_ai.data_len(scope) > 0 {
                    return Err(PoolError::PoolAlreadyCreated.to_program_error());
                }
                let mint_left = next_account_info(accounts, &mut cursor)?;
                let mint_right = next_account_info(accounts, &mut cursor)?;
                let vault_left = next_account_info(accounts, &mut cursor)?;
                crate::spl::find_or_create_vault(
                    program_id,
                    &payer,
                    &pool_ai,
                    &mint_left,
                    &vault_left,
                    &system_program,
                    &token_program,
                    &sysvar,
                    scope,
                )?;
                let vault_right = next_account_info(accounts, &mut cursor)?;
                crate::spl::find_or_create_vault(
                    program_id,
                    &payer,
                    &pool_ai,
                    &mint_right,
                    &vault_right,
                    &system_program,
                    &token_program,
                    &sysvar,
                    scope,
                )?;
                let mut pool = Pool::new(
                    payer.key.clone(),
                    mint_left.key.clone(),
                    mint_right.key.clone(),
                    vault_left.key.clone(),
                    vault_right.key.clone(),
                );
                pool.create_pda(program_id, &payer, &pool_ai, &system_program, scope)?;
                pool.save(&pool_ai, scope)
            },
            PoolInstruction::ProvideLiquidity { amount_left, amount_right } => {
                crate::log::sol_log("Provide liquidity instruction", scope);
                let ghost dr0 = amount_right;
                let token_program = next_account_info(accounts, &mut cursor)?;
                let pool_ai = next_account_info(accounts, &mut cursor)?;
                let mut pool = Pool::load(&pool_ai, scope)?;
                let ghost p0 = pool;
                if !pool.owner.eq(&payer.key) {
                    return Err(PoolError::NotAPoolOwner.to_program_error());
                }
                let mint_left = next_account_info(accounts, &mut cursor)?;
                let mint_right = next_account_info(accounts, &mut cursor)?;
                let vault_left = next_account_info(accounts, &mut cursor)?;
                let vault_right = next_account_info(accounts, &mut cursor)?;
                pool.validate(&mint_left, &mint_right, &vault_left, &vault_right)?;
                let associated_left = next_account_info(accounts, &mut cursor)?;
                let associated_right = next_account_info(accounts, &mut cursor)?;
                let mut amount_right = amount_right;
                if pool.amount_left > 0 {
                    amount_right = liquidity_amount(
                        amount_left,
                        pool.amount_left,
                        pool.amount_right,
                    )?;
                    crate::log::sol_log("Using relation for liquidity", scope);
                } else {
                    crate::log::sol_log("Initial liquidity for pool", scope);
                }
                crate::spl::take_token(
                    amount_left,
                    &payer,
                    &associated_left,
                    &vault_left,
                    &token_program,
                    scope,
                )?;
                crate::spl::take_token(
                    amount_right,
                    &payer,
                    &associated_right,
                    &vault_right,
                    &token_program,
                    scope,
                )?;
                if amount_left > u64::MAX - pool.amount_left || amount_right > u64::MAX
                    - pool.amount_right {
                    return Err(ProgramError::InvalidArgument);
                }
                pool.amount_left = pool.amount_left + amount_left;
                pool.amount_right = pool.amount_right + amount_right;
                let rs = pool.save(&pool_ai, scope);
                proof {
                    if rs is Ok {
                        lemma_auto_spec_u64_to_from_le_bytes();
                        let pi = pool_ai.index as int;
                        let pre_data = old(scope).metas@[pi].1.data@;
                        assert(p0.spec_bytes().len() == 177);
                        assert(p0.spec_bytes() == pre_data.subrange(0, 177));
                        assert(pre_data.subrange(0, p0.spec_bytes().len() as int)
                            == pre_data.subrange(0, 177));
                        assert(pool.spec_bytes().len() == 177);
                        assert(scope.metas@[pi].1.data@.subrange(0, 177) =~= pool.spec_bytes());
                        assert forall|p: Pool|
                            (#[trigger] p.spec_bytes()) == pre_data.subrange(0, 177) implies {
                            let matched = if p.amount_left > 0 {
                                (p.amount_right * amount_left) as int / p.amount_left as int
                            } else {
                                dr0 as int
                            };
                            &&& p.owner@ == accounts@[0].key@
                            &&& p.amount_left + amount_left <= u64::MAX
                            &&& p.amount_right + matched <= u64::MAX
                            &&& scope.metas@[pi].1.data@.subrange(0, 177) == (Pool {
                                amount_left: (p.amount_left + amount_left) as u64,
                                amount_right: (p.amount_right + matched) as u64,
                                ..p
                            }).spec_bytes()
                        } by {
                            assert(p.spec_bytes().len() == 177);
                            assert(p.spec_bytes() == pre_data.subrange(
                                0,
                                p.spec_bytes().len() as int,
                            ));
                            crate::codec::lemma_parse_unique(pre_data, p, p0);
                            assert(pool == Pool {
                                amount_left: (p.amount_left + amount_left) as u64,
                                amount_right: (p.amount_right + (if p.amount_left > 0 {
                                    (p.amount_right * amount_left) as int
                                        / p.amount_left as int
                                } else {
                                    dr0 as int
                                })) as u64,
                                ..p
                            });
                        }
                    }
                }
                rs
            },
            PoolInstruction::Exchange { amount_left, amount_right } => {
                crate::log::sol_log("Provide exchange instruction", scope);
                if amount_left == 0 && amount_right == 0 {
                    return Err(PoolError::ZeroAmountNotAllowed.to_program_error());
                }
                if amount_left > 0 && amount_right > 0 {
                    return Err(PoolError::OnlyOneWayExchangeAllowed.to_program_error());
                }
                let system_program = next_account_info(accounts, &mut cursor)?;
                let token_program = next_account_info(accounts, &mut cursor)?;
                let associated_program = next_account_info(accounts, &mut cursor)?;
                let sysvar = next_account_info(accounts, &mut cursor)?;
                let pool_ai = next_account_info(accounts, &mut cursor)?;
                let mut pool = Pool::load(&pool_ai, scope)?;
                let ghost p0 = pool;
                let mint_left = next_account_info(accounts, &mut cursor)?;
                let mint_right = next_account_info(accounts, &mut cursor)?;
                let vault_left = next_account_info(accounts, &mut cursor)?;
                let vault_right = next_account_info(accounts, &mut cursor)?;
                pool.validate(&mint_left, &mint_right, &vault_left, &vault_right)?;
                let associated_left = next_account_info(accounts, &mut cursor)?;
                if amount_right > 0 {
                    crate::spl::find_or_create_associated_account(
                        &payer,
                        &mint_left,
                        &associated_left,
                        &system_program,
                        &token_program,
                        &associated_program,
                        &sysvar,
                        scope,
                    )?;
                }
                let associated_right = next_account_info(accounts, &mut cursor)?;
                if amount_left > 0 {
                    crate::spl::find_or_create_associated_account(
                        &payer,
                        &mint_right,
                        &associated_right,
                        &system_program,
                        &token_program,
                        &associated_program,
                        &sysvar,
                        scope,
                    )?;
                }
                if amount_left > 0 {
                    if pool.amount_left > u64::MAX - amount_left {
                        return Err(ProgramError::InvalidArgument);
                    }
                    crate::log::sol_log("Exchange left to right", scope);
                    let amount_out = exchange_payout(
                        amount_left,
                        pool.amount_left,
                        pool.amount_right,
                    )?;
                    crate::spl::take_token(
                        amount_left,
                        &payer,
                        &associated_left,
                        &vault_left,
                        &token_program,
                        scope,
                    )?;
                    crate::spl::give_token(
                        amount_out,
                        &pool,
                        &pool_ai,
                        &vault_right,
                        &associated_right,
                        &token_program,
                        scope,
                    )?;
                    pool.amount_left = pool.amount_left + amount_left;
                    pool.amount_right = pool.amount_right - amount_out;
                    crate::log::sol_log("Left in pool updated", scope);
                } else {
                    if pool.amount_right > u64::MAX - amount_right {
                        return Err(ProgramError::InvalidArgument);
                    }
                    crate::log::sol_log("Exchange right to left", scope);
                    let amount_out = exchange_payout(
                        amount_right,
                        pool.amount_right,
                        pool.amount_left,
                    )?;
                    crate::spl::take_token(
                        amount_right,
                        &payer,
                        &associated_right,
                        &vault_right,
                        &token_program,
                        scope,
                    )?;
                    crate::spl::give_token(
                        amount_right,
                        &pool,
                        &pool_ai,
                        &vault_left,
                        &associated_left,
                        &token_program,
                        scope,
                    )?;
                    pool.amount_left = pool.amount_left - amount_out;
                    pool.amount_right = pool.amount_right + amount_right;
                    crate::log::sol_log("Left in pool updated", scope);
                }
                let rs = pool.save(&pool_ai, scope);
                proof {
                    if amount_left == 0 && amount_right > 0 && rs is Ok {
                        lemma_auto_spec_u64_to_from_le_bytes();
                        let pi = pool_ai.index as int;
                        let pre_data = old(scope).metas@[pi].1.data@;
                        assert(p0.spec_bytes().len() == 177);
                        assert(p0.spec_bytes() == pre_data.subrange(0, 177));
                        assert(pre_data.subrange(0, p0.spec_bytes().len() as int)
                            == pre_data.subrange(0, 177));
                        assert(pool.spec_bytes().len() == 177);
                        assert(scope.metas@[pi].1.data@.subrange(0, 177) =~= pool.spec_bytes());
                        assert forall|p: Pool|
                            (#[trigger] p.spec_bytes()) == pre_data.subrange(0, 177) implies {
                            let amount_out = (amount_right * p.amount_left) as int / (
                            p.amount_right + amount_right) as int;
                            &&& p.amount_right + amount_right <= u64::MAX
                            &&& amount_out < p.amount_left
                            &&& scope.metas@[pi].1.data@.subrange(0, 177) == (Pool {
                                amount_left: (p.amount_left - amount_out) as u64,
                                amount_right: (p.amount_right + amount_right) as u64,
                                ..p
                            }).spec_bytes()
                        } by {
                            assert(p.spec_bytes().len() == 177);
                            assert(p.spec_bytes() == pre_data.subrange(
                                0,
                                p.spec_bytes().len() as int,
                            ));
                            crate::codec::lemma_parse_unique(pre_data, p, p0);
                            assert(pool == Pool {
                                amount_left: (p.amount_left - ((amount_right * p.amount_left)
                                    as int / (p.amount_right + amount_right) as int)) as u64,
                                amount_right: (p.amount_right + amount_right) as u64,
                                ..p
                            });
                        }
                    }
                    if amount_left > 0 && amount_right == 0 && rs is Ok {
                        lemma_auto_spec_u64_to_from_le_bytes();
                        let pi = pool_ai.index as int;
                        let pre_data = old(scope).metas@[pi].1.data@;
                        assert(p0.spec_bytes().len() == 177);
                        assert(p0.spec_bytes() == pre_data.subrange(0, 177));
                        assert(pre_data.subrange(0, p0.spec_bytes().len() as int)
                            == pre_data.subrange(0, 177));
                        assert(pool.spec_bytes().len() == 177);
                        assert(scope.metas@[pi].1.data@.subrange(0, 177) =~= pool.spec_bytes());
                        assert forall|p: Pool|
                            (#[trigger] p.spec_bytes()) == pre_data.subrange(0, 177) implies {
                            let ao = (amount_left * p.amount_right) as int / (p.amount_left
                                + amount_left) as int;
                            &&& p.amount_left + amount_left <= u64::MAX
                            &&& ao < p.amount_right
                            &&& scope.metas@[pi].1.data@.subrange(0, 177) == (Pool {
                                amount_left: (p.amount_left + amount_left) as u64,
                                amount_right: (p.amount_right - ao) as u64,
                                ..p
                            }).spec_bytes()
                        } by {
                            assert(p.spec_bytes().len() == 177);
                            assert(p.spec_bytes() == pre_data.subrange(
                                0,
                                p.spec_bytes().len() as int,
                            ));
                            crate::codec::lemma_parse_unique(pre_data, p, p0);
                            assert(pool == Pool {
                                amount_left: (p.amount_left + amount_left) as u64,
                                amount_right: (p.amount_right - ((amount_left * p.amount_right)
                                    as int / (p.amount_left + amount_left) as int)) as u64,
                                ..p
                            });
                        }
                    }
                }
                rs
            },
        }
    }
}

} // verus!
