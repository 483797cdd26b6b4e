use crate::account_info::AccountInfo;
use crate::codec::{read_u64_le, write_u64_le, BorshCodec};
use crate::errors::{ProgramError, ProgramResult};
use crate::invoke::{invoke, invoke_signed};
use crate::pubkey::Pubkey;
use crate::scope::{spec_same_shape, Scope, MAX_CALL_DEPTH};
use vstd::bytes::{lemma_auto_spec_u64_to_from_le_bytes, spec_u64_to_le_bytes};
use vstd::prelude::*;

verus! {

broadcast use crate::pubkey::lemma_pubkey_len;

/// The descriptor contract's account state: a single counter value.
#[derive(Clone, Copy, Debug, PartialEq, Eq, Structural)]
pub struct Counter {
    pub value: u64,
}

impl BorshCodec for Counter {
    open spec fn spec_bytes(&self) -> Seq<u8> {
        spec_u64_to_le_bytes(self.value)
    }

    open spec fn spec_parses(data: Seq<u8>) -> bool {
        data.len() >= 8
    }

    fn write_bytes(&self, dst: &mut Vec<u8>) {
        write_u64_le(dst, self.value);
    }

    fn parse(data: &[u8]) -> (r: Option<Self>) {
        proof {
            lemma_auto_spec_u64_to_from_le_bytes();
        }
        let n = data.len();
        if n < 8 {
            return None;
        }
        let value = read_u64_le(data, 0);
        let v = Counter { value };
        proof {
            assert(v.spec_bytes() =~= data@.subrange(0, 8));
        }
        Some(v)
    }

    proof fn lemma_encoding_parses(v: Self, extra: Seq<u8>) {
        lemma_auto_spec_u64_to_from_le_bytes();
    }

    proof fn lemma_prefix_injective(a: Self, b: Self) {
        lemma_auto_spec_u64_to_from_le_bytes();
        assert(a.spec_bytes() =~= b.spec_bytes());
    }
}

impl Counter {
    pub fn new() -> (r: Counter)
        ensures
            r.value == 1,
    {
        Counter { value: 1 }
    }

    /// The encoded size of a counter.
    pub fn size(&self) -> (r: usize)
        ensures
            r == 8,
    {
        8
    }

    /// Reads the counter stored in an account.
    pub fn load(ai: &AccountInfo, scope: &Scope) -> (r: Result<Counter, ProgramError>)
        requires
            scope.spec_valid_info(*ai),
        ensures
            r is Ok <==> scope.metas@[ai.index as int].1.data@.len() >= 8,
            r matches Ok(c) ==> c.spec_bytes() == scope.metas@[ai.index as int].1.data@.subrange(
                0,
                8,
            ),
            r is Err ==> r == Err::<Counter, ProgramError>(ProgramError::BorshIoError),
    {
        proof {
            lemma_auto_spec_u64_to_from_le_bytes();
        }
        let data = ai.data(scope);
        match Counter::parse(data.as_slice()) {
            Some(c) => Ok(c),
            None => Err(ProgramError::BorshIoError),
        }
    }

    /// Writes the counter over the front of an account's data, which must
    /// be large enough to hold it.
    pub fn save(&self, ai: &AccountInfo, scope: &mut Scope) -> (r: ProgramResult)
        requires
            old(scope).spec_valid_info(*ai),
        ensures
            old(scope).spec_wf() ==> final(scope).spec_wf(),
            spec_same_shape(*old(scope), *final(scope)),
            final(scope).receipt == old(scope).receipt,
            r is Ok <==> old(scope).metas@[ai.index as int].1.data@.len() >= 8,
            r is Err ==> r == Err::<(), ProgramError>(ProgramError::BorshIoError) && final(scope).metas == old(scope).metas,
            r is Ok ==> {
                &&& final(scope).spec_len() == old(scope).spec_len()
                &&& forall|i: int|
                    0 <= i < old(scope).spec_len() && i != ai.index ==> #[trigger] final(scope).metas@[i] == old(scope).metas@[i]
                &&& final(scope).metas@[ai.index as int].0 == old(scope).metas@[ai.index as int].0
                &&& final(scope).metas@[ai.index as int].1.data@ == self.spec_bytes() + old(scope).metas@[ai.index as int].1.data@.skip(8)
                &&& final(scope).metas@[ai.index as int].1.lamports == old(scope).metas@[ai.index as int].1.lamports
                &&& final(scope).metas@[ai.index as int].1.owner == old(scope).metas@[ai.index as int].1.owner
            },
    {
        proof {
            lemma_auto_spec_u64_to_from_le_bytes();
        }
        let data = ai.data(scope);
        let n = data.len();
        if n < 8 {
            return Err(ProgramError::BorshIoError);
        }
        let mut fresh: Vec<u8> = Vec::new();
        write_u64_le(&mut fresh, self.value);
        let mut i: usize = 8;
        while i < n
            invariant
                8 <= i <= n,
                n == data@.len(),
                fresh@ == spec_u64_to_le_bytes(self.value) + data@.subrange(8, i as int),
            decreases n - i,
        {
            fresh.push(data[i]);
            proof {
                assert(spec_u64_to_le_bytes(self.value) + data@.subrange(8, i as int) + seq![
                    data@[i as int] ] =~= spec_u64_to_le_bytes(self.value) + data@.subrange(
                    8,
                    i + 1,
                ));
            }
            i += 1;
        }
        proof {
            assert(Seq::<u8>::empty() + spec_u64_to_le_bytes(self.value) =~= spec_u64_to_le_bytes(
                self.value,
            ));
            assert(data@.subrange(8, n as int) =~= data@.skip(8));
        }
        scope.set_data_at(ai.index, fresh);
        proof {
            assert forall|i: int| 0 <= i < scope.spec_len() implies (#[trigger] scope.metas@[i]).0
                == old(scope).metas@[i].0 && scope.metas@[i].1.executable == old(scope).metas@[i].1.executable && scope.metas@[i].1.package == old(scope).metas@[i].1.package by {}
            if old(scope).spec_wf() {
                assert(scope.spec_wf());
            }
        }
        Ok(())
    }

    /// Logs the counter's value as a data tuple.
    pub fn log(&self, scope: &mut Scope)
        requires
            old(scope).spec_depth() > 0,
        ensures
            final(scope).metas == old(scope).metas,
            final(scope).settings == old(scope).settings,
            final(scope).receipt.result == old(scope).receipt.result,
            final(scope).receipt.call_stack == old(scope).receipt.call_stack,
            final(scope).receipt.return_data == old(scope).receipt.return_data,
            crate::receipt::spec_log_prefix(old(scope).receipt, final(scope).receipt),
        old(scope).receipt.return_data is None ==> final(scope).receipt.return_data is None,
            old(scope).receipt.return_data is None ==> final(scope).receipt.return_data is None,
            final(scope).receipt.spec_contains_data(
                old(scope).receipt.call_stack@.last()@,
                seq![spec_u64_to_le_bytes(self.value)],
            ),
    {
        crate::log::sol_log("Log Counter", scope);
        let bytes = vstd::bytes::u64_to_le_bytes(self.value);
        let mut tuple: Vec<Vec<u8>> = Vec::new();
        tuple.push(bytes);
        proof {
            assert(tuple.deep_view() =~~= seq![spec_u64_to_le_bytes(self.value)]);
        }
        crate::log::sol_log_data(&tuple, scope);
    }

    /// Reads a counter off the front of a byte buffer.
    pub fn from_bytes(bytes: &Vec<u8>) -> (r: Counter)
        requires
            bytes@.len() >= 8,
        ensures
            r.spec_bytes() == bytes@.subrange(0, 8),
    {
        proof {
            lemma_auto_spec_u64_to_from_le_bytes();
        }
        let value = read_u64_le(bytes.as_slice(), 0);
        let r = Counter { value };
        proof {
            assert(r.spec_bytes() =~= bytes@.subrange(0, 8));
        }
        r
    }

    /// Appends the counter's encoding to a buffer.
    pub fn dump_bytes(&self, bytes: &mut Vec<u8>)
        ensures
            final(bytes)@ == old(bytes)@ + self.spec_bytes(),
    {
        self.write_bytes(bytes);
    }

    /// The counter's encoding, in a fresh buffer.
    pub fn to_bytes(&self) -> (r: Vec<u8>)
        ensures
            r@ == self.spec_bytes(),
    {
        crate::codec::encode_to_vec(self)
    }

    /// Creates the counter's account through the system program, funded to
    /// the rent-exempt minimum for its size.
    pub fn create(
        &self,
        program_id: &Pubkey,
        payer: &AccountInfo,
        ai: &AccountInfo,
        system_program: &AccountInfo,
        scope: &mut Scope,
    ) -> (r: ProgramResult)
        requires
            old(scope).spec_wf(),
            1 <= old(scope).spec_depth() <= MAX_CALL_DEPTH,
            old(scope).spec_valid_info(*payer),
            old(scope).spec_valid_info(*ai),
            old(scope).spec_valid_info(*system_program),
        ensures
            final(scope).spec_wf(),
            spec_same_shape(*old(scope), *final(scope)),
            final(scope).spec_depth() == old(scope).spec_depth(),
            final(scope).receipt.call_stack@ == old(scope).receipt.call_stack@,
            final(scope).receipt.result == old(scope).receipt.result,
            crate::receipt::spec_log_prefix(old(scope).receipt, final(scope).receipt),
        old(scope).receipt.return_data is None ==> final(scope).receipt.return_data is None,
            old(scope).receipt.return_data is None ==> final(scope).receipt.return_data is None,
        decreases 4 - old(scope).spec_depth(), 4int,
    {
        let rent = scope.get_rent();
        let min = rent.minimum_balance(self.size());
        let idx = crate::system_instruction::create_account(
            &payer.key,
            &ai.key,
            min,
            8,
            program_id,
        );
        let mut infos: Vec<AccountInfo> = Vec::new();
        infos.push(payer.clone());
        infos.push(ai.clone());
        infos.push(system_program.clone());
        invoke(&idx, &infos, scope)
    }

    /// Creates the counter's account at its derived address, signing with
    /// the derivation seeds.
    pub fn create_pda(
        &self,
        program_id: &Pubkey,
        payer: &AccountInfo,
        ai: &AccountInfo,
        system_program: &AccountInfo,
        scope: &mut Scope,
    ) -> (r: ProgramResult)
        requires
            old(scope).spec_wf(),
            1 <= old(scope).spec_depth() <= MAX_CALL_DEPTH,
            old(scope).spec_valid_info(*payer),
            old(scope).spec_valid_info(*ai),
            old(scope).spec_valid_info(*system_program),
        ensures
            final(scope).spec_wf(),
            spec_same_shape(*old(scope), *final(scope)),
            final(scope).spec_depth() == old(scope).spec_depth(),
            final(scope).receipt.call_stack@ == old(scope).receipt.call_stack@,
            final(scope).receipt.result == old(scope).receipt.result,
            crate::receipt::spec_log_prefix(old(scope).receipt, final(scope).receipt),
        old(scope).receipt.return_data is None ==> final(scope).receipt.return_data is None,
            old(scope).receipt.return_data is None ==> final(scope).receipt.return_data is None,
        decreases 4 - old(scope).spec_depth(), 4int,
    {
        let mut seeds: Vec<Vec<u8>> = Vec::new();
        seeds.push(counter_seed_text());
        seeds.push(crate::pubkey::clone_bytes(payer.key.as_bytes().as_slice()));
        seeds.push(crate::pubkey::clone_bytes(program_id.as_bytes().as_slice()));
        let found = Pubkey::try_find_program_address(&seeds, program_id);
        let bump: u8;
        match found {
            None => {
                return Err(ProgramError::InvalidSeeds);
            },
            Some(p) => {
                let confirmed = Pubkey::find_program_address(&seeds, program_id);
                bump = confirmed.1;
            },
        }
        let mut bump_seed: Vec<u8> = Vec::new();
        bump_seed.push(bump);
        let signing = crate::pubkey::seeds_with_extra(&seeds, bump_seed);
        let mut signers: Vec<Vec<Vec<u8>>> = Vec::new();
        signers.push(signing);
        let rent = scope.get_rent();
        let min = rent.minimum_balance(self.size());
        let idx = crate::system_instruction::create_account(
            &payer.key,
            &ai.key,
            min,
            8,
            program_id,
        );
        let mut infos: Vec<AccountInfo> = Vec::new();
        infos.push(payer.clone());
        infos.push(ai.clone());
        infos.push(system_program.clone());
        invoke_signed(&idx, &infos, &signers, scope)
    }

    /// Funds an account for `add_size` more bytes and grows its data.
    pub fn realloc(
        &self,
        add_size: usize,
        payer: &AccountInfo,
        ai: &AccountInfo,
        system_program: &AccountInfo,
        scope: &mut Scope,
    ) -> (r: Result<usize, ProgramError>)
        requires
            old(scope).spec_wf(),
            1 <= old(scope).spec_depth() <= MAX_CALL_DEPTH,
            old(scope).spec_valid_info(*payer),
            old(scope).spec_valid_info(*ai),
            old(scope).spec_valid_info(*system_program),
        ensures
            final(scope).spec_wf(),
            spec_same_shape(*old(scope), *final(scope)),
            final(scope).spec_depth() == old(scope).spec_depth(),
            final(scope).receipt.call_stack@ == old(scope).receipt.call_stack@,
            final(scope).receipt.result == old(scope).receipt.result,
            crate::receipt::spec_log_prefix(old(scope).receipt, final(scope).receipt),
        old(scope).receipt.return_data is None ==> final(scope).receipt.return_data is None,
            old(scope).receipt.return_data is None ==> final(scope).receipt.return_data is None,
        decreases 4 - old(scope).spec_depth(), 4int,
    {
        let rent = scope.get_rent();
        let min = rent.minimum_balance(add_size);
        let idx = crate::system_instruction::transfer(&payer.key, &ai.key, min);
        let mut infos: Vec<AccountInfo> = Vec::new();
        infos.push(payer.clone());
        infos.push(ai.clone());
        infos.push(system_program.clone());
        match invoke(&idx, &infos, scope) {
            Ok(_) => (),
            Err(e) => {
                return Err(e);
            },
        }
        let current = ai.data_len(scope);
        if add_size > usize::MAX - current {
            return Err(ProgramError::InvalidRealloc);
        }
        let new_len = current + add_size;
        match ai.realloc(scope, new_len, true) {
            Ok(_) => Ok(new_len),
            Err(e) => Err(e),
        }
    }
}

/// The ASCII bytes of the seed word `counter`.
pub fn counter_seed_text() -> (r: Vec<u8>)
    ensures
        r@ =~= seq![99u8, 111u8, 117u8, 110u8, 116u8, 101u8, 114u8],
{
    let mut v: Vec<u8> = Vec::new();
    v.push(99);
    v.push(111);
    v.push(117);
    v.push(110);
    v.push(116);
    v.push(101);
    v.push(114);
    proof {
        assert(v@ =~= seq![99u8, 111u8, 117u8, 110u8, 116u8, 101u8, 114u8]);
    }
    v
}

} // verus!
