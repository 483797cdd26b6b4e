use fulgurite::account::{Account, Meta};
use fulgurite::account_info::AccountInfo;
use fulgurite::codec::{BorshCodec, Pack};
use fulgurite::counter::Counter;
use fulgurite::errors::ProgramError;
use fulgurite::package::Entrypoint;
use fulgurite::pool::{exchange_amount, Pool, PoolInstruction};
use fulgurite::program::{find_account, top_level_infos, Program};
use fulgurite::program_ids::{spl_program_id, system_program_id};
use fulgurite::pubkey::Pubkey;
use fulgurite::scope::Scope;
use fulgurite::spl::{
    new_mint_struct, new_token_account_struct, try_get_associated_token_address,
    try_get_vault_account_address, SPLAccount,
};
use fulgurite::system_instruction;
use fulgurite::typed_account::{BorshedWrapper, SyncState, TypedAccount};
use fulgurite::viewer::ViewerInstruction;

// Address derivation matches an independently computed reference vector,
// and is stable across repeated calls.
#[test]
fn derivation_reference_vector() {
    let payer = Pubkey::new_from_array([7u8; 32]);
    let program = Pubkey::new_from_array([9u8; 32]);
    let seeds = vec![
        b"counter".to_vec(),
        payer.as_bytes().to_vec(),
        program.as_bytes().to_vec(),
    ];
    let (key, bump) = Pubkey::try_find_program_address(&seeds, &program).unwrap();
    assert_eq!(bump, 254);
    let expected: [u8; 32] = [
        190, 136, 60, 44, 190, 149, 6, 201, 243, 187, 101, 97, 86, 35, 236, 137, 97, 120, 221,
        115, 75, 228, 180, 231, 1, 105, 90, 44, 11, 79, 171, 118,
    ];
    assert_eq!(key.to_bytes(), expected);

    let (key2, bump2) = Pubkey::try_find_program_address(&seeds, &program).unwrap();
    assert_eq!(key.to_bytes(), key2.to_bytes());
    assert_eq!(bump, bump2);
}

// A derivation whose hash lands on the curve is rejected.
#[test]
fn derivation_rejects_curve_points() {
    let zeros = Pubkey::new_from_array([0u8; 32]);
    let seeds = vec![b"seed".to_vec(), vec![255u8]];
    let r = Pubkey::create_program_address(&seeds, &zeros);
    assert!(r.is_err());

    assert!(Pubkey::new_from_array([0u8; 32]).is_on_curve());
    let mut two = [0u8; 32];
    two[0] = 2;
    assert!(!Pubkey::new_from_array(two).is_on_curve());
}

#[test]
fn base58_of_zero_key() {
    let zeros = Pubkey::new_from_array([0u8; 32]);
    assert_eq!(zeros.to_base58(), "11111111111111111111111111111111");
}

#[test]
fn base64_appears_in_data_log() {
    let system_program = Program::system_program();
    let viewer = Program::inline(Entrypoint::Viewer, Pubkey::new_rand());
    let payer_ai = Account::new(Pubkey::new_rand(), 1000000000, &system_program.pubkey, Vec::new());
    let (receipt, _accounts) = viewer.invoke_with_borsh(
        &ViewerInstruction::LogData,
        vec![payer_ai.meta(true, true)],
    );
    assert!(receipt.contains_log("Program data: AQIDBA=="));
}

// Round trip: encoding a value and reading it back reproduces it.
#[test]
fn counter_round_trip() {
    let c = Counter { value: 12345678901234567 };
    let bytes = c.to_bytes();
    assert_eq!(bytes.len(), 8);
    let back = Counter::from_bytes(&bytes);
    assert_eq!(back.value, c.value);
}

#[test]
fn pool_round_trip() {
    let p = Pool {
        owner: Pubkey::new_from_array([1u8; 32]),
        mint_left: Pubkey::new_from_array([2u8; 32]),
        mint_right: Pubkey::new_from_array([3u8; 32]),
        vault_left: Pubkey::new_from_array([4u8; 32]),
        vault_right: Pubkey::new_from_array([5u8; 32]),
        amount_left: 11,
        amount_right: 22,
        bump: 7,
    };
    let mut bytes: Vec<u8> = Vec::new();
    p.write_bytes(&mut bytes);
    assert_eq!(bytes.len(), 177);
    let back = Pool::parse(bytes.as_slice()).unwrap();
    assert!(back.owner.eq(&p.owner));
    assert!(back.vault_right.eq(&p.vault_right));
    assert_eq!(back.amount_left, 11);
    assert_eq!(back.amount_right, 22);
    assert_eq!(back.bump, 7);
}

#[test]
fn token_account_round_trip() {
    let a = new_token_account_struct(
        &Pubkey::new_from_array([8u8; 32]),
        &Pubkey::new_from_array([9u8; 32]),
    );
    let packed = a.pack();
    assert_eq!(packed.len(), 165);
    let back = SPLAccount::unpack_from_slice(packed.as_slice()).unwrap();
    assert!(back.mint.eq(&a.mint));
    assert!(back.owner.eq(&a.owner));
    assert_eq!(back.amount, 0);
}

#[test]
fn typed_account_sync_round_trip() {
    let c = Counter { value: 424242 };
    let mut typed = TypedAccount::new_borshed(
        Pubkey::new_rand(),
        &system_program_id(),
        c,
    );
    typed.copy_struct_to_bytes();
    assert_eq!(typed.sync, SyncState::InSync);
    typed.sync = SyncState::BytesAhead;
    assert_eq!(typed.copy_bytes_to_struct(), Ok(()));
    assert_eq!(typed.data.data.value, 424242);
}

// The rent gate gives the same verdict on an unmodified account set.
#[test]
fn rent_gate_repeatable() {
    let key = Pubkey::new_rand();
    let meta = Meta {
        is_signer: false,
        is_writable: true,
        executable: false,
        lamports: 100,
        owner: system_program_id(),
        data: vec![0u8; 8],
        package: None,
    };
    let mut scope = Scope::new(vec![(key, meta)]);
    let views = top_level_infos(&scope);
    let first = scope.finalize_system_invoke(&views);
    let second = scope.finalize_system_invoke(&views);
    assert_eq!(first, Err(ProgramError::AccountNotRentExempt));
    assert_eq!(first, second);

    let rich_key = Pubkey::new_rand();
    let rich = Meta {
        is_signer: false,
        is_writable: true,
        executable: false,
        lamports: 8 * 6960,
        owner: system_program_id(),
        data: vec![0u8; 8],
        package: None,
    };
    let mut scope2 = Scope::new(vec![(rich_key, rich)]);
    let views2 = top_level_infos(&scope2);
    assert_eq!(scope2.finalize_system_invoke(&views2), Ok(()));
    assert_eq!(scope2.finalize_system_invoke(&views2), Ok(()));
}

fn plain_meta(lamports: u64, data: Vec<u8>) -> Meta {
    Meta {
        is_signer: true,
        is_writable: true,
        executable: false,
        lamports,
        owner: system_program_id(),
        data,
        package: None,
    }
}

// A nested call entered at the depth bound fails CallDepthExceeded; one
// frame below the bound it still runs.
#[test]
fn depth_bound() {
    let system_program = Program::system_program();
    let payer_key = Pubkey::new_rand();
    let to_key = Pubkey::new_rand();
    let (sys_key, sys_meta) = system_program.meta();
    let mut scope = Scope::new(vec![
        (payer_key, plain_meta(1000000, Vec::new())),
        (to_key, plain_meta(0, Vec::new())),
        (sys_key, sys_meta),
    ]);
    let infos = top_level_infos(&scope);
    let idx = system_instruction::transfer(&payer_key, &to_key, 5);

    // Fill the stack to the bound of four frames.
    scope.receipt.call_stack.push(Pubkey::new_rand());
    scope.receipt.call_stack.push(Pubkey::new_rand());
    scope.receipt.call_stack.push(Pubkey::new_rand());
    scope.receipt.call_stack.push(Pubkey::new_rand());
    let r = scope.invoke_signed_unchecked(&idx, &infos, &Vec::new());
    assert_eq!(r, Err(ProgramError::CallDepthExceeded));

    // One frame below the bound the call goes through.
    scope.receipt.call_stack.pop();
    let r2 = scope.invoke_signed_unchecked(&idx, &infos, &Vec::new());
    assert_eq!(r2, Ok(()));
}

// Creating a funded account succeeds exactly when the funding covers the
// rent-exempt minimum for its data size.
#[test]
fn create_account_rent_threshold() {
    let minimum: u64 = 8 * 6960;
    for (lamports, expected_ok) in [(minimum, true), (minimum - 1, false)] {
        let system_program = Program::system_program();
        let payer_key = Pubkey::new_rand();
        let to_key = Pubkey::new_rand();
        let owner_key = Pubkey::new_rand();
        let (sys_key, sys_meta) = system_program.meta();
        let mut scope = Scope::new(vec![
            (payer_key, plain_meta(1000000000, Vec::new())),
            (to_key, plain_meta(0, Vec::new())),
            (sys_key, sys_meta),
        ]);
        let infos = top_level_infos(&scope);
        scope.receipt.call_stack.push(Pubkey::new_rand());
        let idx = system_instruction::create_account(&payer_key, &to_key, lamports, 8, &owner_key);
        let r = scope.invoke_signed_unchecked(&idx, &infos, &Vec::new());
        if expected_ok {
            assert_eq!(r, Ok(()));
            let entry = &scope.metas[1].1;
            assert!(entry.owner.eq(&owner_key));
            assert_eq!(entry.data.len(), 8);
            assert_eq!(entry.lamports, minimum);
        } else {
            assert_eq!(r, Err(ProgramError::AccountNotRentExempt));
        }
    }
}

// The constant-product payout and its reference values.
#[test]
fn exchange_amount_values() {
    assert_eq!(exchange_amount(10, 1000, 1000000), 9900);
    assert_eq!(exchange_amount(1, 1, 1), 0);
    assert_eq!(exchange_amount(5, 0, 100), 100);
}

// An exchange against a pool with no liquidity on the paying side fails
// and moves nothing.
#[test]
fn exchange_without_liquidity_fails() {
    let pool_program = Program::inline(Entrypoint::SimplePool, Pubkey::new_rand());
    let system_program = Program::system_program();
    let token_program = Program::token_program();
    let associated_program = Program::associated_token_program();
    let sysvar_program = Program::sysvar_program();

    let owner = Account::new(Pubkey::new_rand(), 1000000000, &system_program_id(), Vec::new());
    let mut mint1 = TypedAccount::new_packed(
        Pubkey::new_rand(),
        &spl_program_id(),
        new_mint_struct(owner.pubkey(), 0),
    );
    let mut mint2 = TypedAccount::new_packed(
        Pubkey::new_rand(),
        &spl_program_id(),
        new_mint_struct(owner.pubkey(), 0),
    );
    let acc1_key = try_get_associated_token_address(owner.pubkey(), mint1.pubkey())
        .unwrap()
        .0;
    let acc2_key = try_get_associated_token_address(owner.pubkey(), mint2.pubkey())
        .unwrap()
        .0;
    let mut token_acc1 = TypedAccount::new_packed(
        acc1_key,
        &spl_program_id(),
        new_token_account_struct(mint1.pubkey(), owner.pubkey()),
    );
    let mut token_acc2 = TypedAccount::new_packed(
        acc2_key,
        &spl_program_id(),
        new_token_account_struct(mint2.pubkey(), owner.pubkey()),
    );
    let (pool_key, bump) = Pool::try_find_address(
        pool_program.pubkey(),
        owner.pubkey(),
        mint1.pubkey(),
        mint2.pubkey(),
    )
    .unwrap();
    let vault1_key = try_get_vault_account_address(pool_program.pubkey(), mint1.pubkey())
        .unwrap()
        .0;
    let vault2_key = try_get_vault_account_address(pool_program.pubkey(), mint2.pubkey())
        .unwrap()
        .0;
    let mut vault1 = TypedAccount::new_packed(
        vault1_key,
        &spl_program_id(),
        new_token_account_struct(mint1.pubkey(), &pool_key),
    );
    let mut vault2 = TypedAccount::new_packed(
        vault2_key,
        &spl_program_id(),
        new_token_account_struct(mint2.pubkey(), &pool_key),
    );
    let mut pool_value = Pool::new(
        owner.pubkey().clone(),
        mint1.pubkey().clone(),
        mint2.pubkey().clone(),
        vault1_key,
        vault2_key,
    );
    pool_value.bump = bump;
    pool_value.amount_right = 1000000;
    let mut pool = TypedAccount::new_borshed(pool_key, pool_program.pubkey(), pool_value);

    let (receipt, accounts) = pool_program.invoke_with_borsh(
        &PoolInstruction::Exchange { amount_left: 10, amount_right: 0 },
        vec![
            owner.meta(true, true),
            system_program.meta(),
            token_program.meta(),
            associated_program.meta(),
            sysvar_program.meta(),
            pool.meta(false, true),
            mint1.meta(false, true),
            mint2.meta(false, true),
            vault1.meta(false, true),
            vault2.meta(false, true),
            token_acc1.meta(false, true),
            token_acc2.meta(false, true),
        ],
    );
    // NotEnoughLiquidity travels as its numeric code.
    assert_eq!(receipt.result, Err(ProgramError::Custom(11)));
    let vault2_after = find_account(&accounts, &vault2_key).unwrap().clone();
    let typed = TypedAccount::<fulgurite::typed_account::PackedWrapper<SPLAccount>>::
        from_account_packed(vault2_after).unwrap();
    assert_eq!(typed.data.data.amount, 0);
}

// Asserting signer privilege for an account that is no parent-scope
// signer and carries no matching seeds fails, leaving every account as
// it was.
#[test]
fn signer_escalation_denied() {
    let system_program = Program::system_program();
    let descriptor = Program::inline(Entrypoint::Descriptor, Pubkey::new_rand());
    let viewer = Program::inline(Entrypoint::Viewer, Pubkey::new_rand());
    let payer_ai = Account::new(Pubkey::new_rand(), 1000000000, &system_program.pubkey, Vec::new());
    // Not the derived address for the viewer's seeds: the escalation has
    // no covering signature.
    let stray = Account::new(Pubkey::new_rand(), 77, &system_program.pubkey, vec![5, 6]);
    let stray_key = stray.pubkey;

    let (receipt, accounts) = viewer.invoke_with_borsh(
        &ViewerInstruction::PDASignature,
        vec![
            payer_ai.meta(true, true),
            stray.meta(false, false),
            descriptor.meta(),
        ],
    );

    assert_eq!(receipt.result, Err(ProgramError::MissingRequiredSignature));
    let stray_after = find_account(&accounts, &stray_key).unwrap();
    assert_eq!(stray_after.lamports, 77);
    assert!(stray_after.expect_bytes(&[5, 6]));
    let payer_after = find_account(&accounts, &payer_ai.pubkey).unwrap();
    assert_eq!(payer_after.lamports, 1000000000);
}

// The system instruction wire form: tag, fields, little endian.
#[test]
fn system_instruction_wire_form() {
    let from = Pubkey::new_from_array([1u8; 32]);
    let to = Pubkey::new_from_array([2u8; 32]);
    let idx = system_instruction::transfer(&from, &to, 0x0102030405060708);
    assert_eq!(idx.data.len(), 12);
    assert_eq!(&idx.data[0..4], &[2, 0, 0, 0]);
    assert_eq!(&idx.data[4..12], &[8, 7, 6, 5, 4, 3, 2, 1]);

    let owner = Pubkey::new_from_array([3u8; 32]);
    let idx2 = system_instruction::create_account(&from, &to, 5, 8, &owner);
    assert_eq!(idx2.data.len(), 52);
    assert_eq!(&idx2.data[0..4], &[0, 0, 0, 0]);
    assert_eq!(&idx2.data[20..52], owner.as_bytes());
}

#[test]
fn error_messages_render() {
    assert_eq!(ProgramError::Custom(5).message(), "Custom(5)");
    assert_eq!(ProgramError::Custom(12345).message(), "Custom(12345)");
    assert_eq!(
        ProgramError::MissingRequiredSignature.message(),
        "MissingRequiredSignature"
    );
}

// Growth beyond the per-call cap is rejected as InvalidRealloc.
#[test]
fn realloc_growth_cap() {
    let system_program = Program::system_program();
    let viewer = Program::inline(Entrypoint::Viewer, Pubkey::new_rand());
    let payer_ai = Account::new(Pubkey::new_rand(), 1000000000, &system_program.pubkey, Vec::new());
    let account_ai = Account::new(Pubkey::new_rand(), 0, &system_program.pubkey, vec![1, 2, 3, 4]);

    let (receipt, _accounts) = viewer.invoke_with_borsh(
        &ViewerInstruction::ReallocAccount { new_size: 4 + 10241 },
        vec![
            payer_ai.meta(true, true),
            account_ai.meta(false, true),
            system_program.meta(),
        ],
    );
    assert_eq!(receipt.result, Err(ProgramError::InvalidRealloc));
}

#[test]
fn next_account_info_cursor() {
    let infos = vec![
        AccountInfo::new(Pubkey::new_rand(), 0, true, true, false),
        AccountInfo::new(Pubkey::new_rand(), 1, false, false, false),
    ];
    let mut cursor: usize = 0;
    let first = fulgurite::account_info::next_account_info(&infos, &mut cursor).unwrap();
    assert!(first.is_signer);
    let second = fulgurite::account_info::next_account_info(&infos, &mut cursor).unwrap();
    assert!(!second.is_signer);
    assert!(fulgurite::account_info::next_account_info(&infos, &mut cursor).is_err());
}

// The escalation check accepts exactly the matching (seeds, id) pair.
#[test]
fn verify_matches_only_derived_address() {
    let program = Pubkey::new_from_array([9u8; 32]);
    let payer = Pubkey::new_from_array([7u8; 32]);
    let seeds = vec![
        b"counter".to_vec(),
        payer.as_bytes().to_vec(),
        program.as_bytes().to_vec(),
    ];
    let (key, bump) = Pubkey::try_find_program_address(&seeds, &program).unwrap();
    let mut full_seeds = seeds.clone();
    full_seeds.push(vec![bump]);
    assert!(Pubkey::verify_derived_address(&full_seeds, &program, &key));
    assert!(!Pubkey::verify_derived_address(
        &full_seeds,
        &program,
        &Pubkey::new_from_array([1u8; 32])
    ));
    let mut wrong_seeds = seeds.clone();
    wrong_seeds.push(vec![bump.wrapping_sub(1)]);
    assert!(!Pubkey::verify_derived_address(&wrong_seeds, &program, &key));
}

// Each addressing failure on its triggering input.
#[test]
fn derivation_error_inputs() {
    let program = Pubkey::new_from_array([9u8; 32]);
    let too_many: Vec<Vec<u8>> = (0..17).map(|i| vec![i as u8]).collect();
    assert!(Pubkey::create_program_address(&too_many, &program).is_err());
    let too_long = vec![vec![0u8; 33]];
    assert!(Pubkey::create_program_address(&too_long, &program).is_err());
}

fn run_system_instruction(
    idx: fulgurite::instruction::Instruction,
    payer_lamports: u64,
    to_lamports: u64,
    to_data: Vec<u8>,
) -> Result<(), ProgramError> {
    let system_program = Program::system_program();
    let payer_key = idx.accounts[0].pubkey;
    let to_key = if idx.accounts.len() > 1 {
        idx.accounts[1].pubkey
    } else {
        Pubkey::new_rand()
    };
    let (sys_key, sys_meta) = system_program.meta();
    let mut scope = Scope::new(vec![
        (payer_key, plain_meta(payer_lamports, Vec::new())),
        (to_key, plain_meta(to_lamports, to_data)),
        (sys_key, sys_meta),
    ]);
    let infos = top_level_infos(&scope);
    scope.receipt.call_stack.push(Pubkey::new_rand());
    scope.invoke_signed_unchecked(&idx, &infos, &Vec::new())
}

// Each system-program failure on its triggering input.
#[test]
fn system_error_inputs() {
    let payer = Pubkey::new_rand();
    let to = Pubkey::new_rand();
    let owner = Pubkey::new_rand();

    // An occupied target: AccountAlreadyInUse travels as code 0.
    let r = run_system_instruction(
        system_instruction::create_account(&payer, &to, 8 * 6960, 8, &owner),
        1000000000,
        3 * 6960,
        vec![1, 2, 3],
    );
    assert_eq!(r, Err(ProgramError::Custom(0)));

    // Oversized allocation: InvalidAccountDataLength travels as code 3.
    let r = run_system_instruction(
        system_instruction::create_account(&payer, &to, 8 * 6960, 10 * 1024 * 1024 + 1, &owner),
        1000000000,
        0,
        Vec::new(),
    );
    assert_eq!(r, Err(ProgramError::Custom(3)));

    // Underfunded source: the negative-balance failure travels as code 1.
    let r = run_system_instruction(
        system_instruction::transfer(&payer, &to, 100),
        50,
        0,
        Vec::new(),
    );
    assert_eq!(r, Err(ProgramError::Custom(1)));

    // Garbage instruction data is rejected outright.
    let garbage = fulgurite::instruction::Instruction {
        program_id: system_program_id(),
        accounts: vec![fulgurite::instruction::AccountMeta::new(payer, true)],
        data: vec![99, 99],
    };
    let r = run_system_instruction(garbage, 1000, 0, Vec::new());
    assert_eq!(r, Err(ProgramError::InvalidInstructionData));

    // A missing account: the declaration list is too short.
    let short = fulgurite::instruction::Instruction {
        program_id: system_program_id(),
        accounts: vec![fulgurite::instruction::AccountMeta::new(payer, true)],
        data: system_instruction::transfer(&payer, &to, 1).data,
    };
    let r = run_system_instruction(short, 1000, 0, Vec::new());
    assert_eq!(r, Err(ProgramError::NotEnoughAccountKeys));
}

// Reading a counter from an undersized account fails its decoding error.
#[test]
fn short_account_fails_decoding() {
    let system_program = Program::system_program();
    let descriptor = Program::inline(Entrypoint::Descriptor, Pubkey::new_rand());
    let payer_ai = Account::new(Pubkey::new_rand(), 1000000000, &system_program.pubkey, Vec::new());
    let counter_ai = Account::new(Pubkey::new_rand(), 1000, &descriptor.pubkey, vec![1, 2, 3]);
    let (receipt, _accounts) = descriptor.invoke_with_borsh(
        &fulgurite::descriptor::DescriptorInstruction::ReadToLog,
        vec![payer_ai.meta(true, true), counter_ai.meta(false, false)],
    );
    assert_eq!(receipt.result, Err(ProgramError::BorshIoError));
}

// A writable request on an account the parent holds read-only is refused.
#[test]
fn writable_escalation_denied() {
    let system_program = Program::system_program();
    let payer_key = Pubkey::new_rand();
    let to_key = Pubkey::new_rand();
    let (sys_key, sys_meta) = system_program.meta();
    let mut read_only = plain_meta(1000000, Vec::new());
    read_only.is_writable = false;
    let mut scope = Scope::new(vec![
        (payer_key, plain_meta(1000000000, Vec::new())),
        (to_key, read_only),
        (sys_key, sys_meta),
    ]);
    let infos = top_level_infos(&scope);
    scope.receipt.call_stack.push(Pubkey::new_rand());
    let idx = system_instruction::transfer(&payer_key, &to_key, 5);
    let r = scope.invoke_signed_unchecked(&idx, &infos, &Vec::new());
    assert_eq!(r, Err(ProgramError::InvalidInstructionData));
    assert_eq!(scope.metas[1].1.lamports, 1000000);
}

// The numeric log line renders its arguments in hexadecimal.
#[test]
fn sol_log_64_renders_hex() {
    let mut scope = Scope::new(Vec::new());
    fulgurite::log::sol_log_64(255, 0, 16, 1, 2, &mut scope);
    assert!(scope
        .receipt
        .contains_log("Program logged: \"0xff, 0x0, 0x10, 0x1, 0x2\""));
}

#[test]
fn unit_conversions() {
    assert_eq!(fulgurite::utils::sol_to_lamports(3), 3_000_000_000);
    assert_eq!(fulgurite::utils::rent_exempt_for_size(4), 4 * 6960);
    assert!(fulgurite::utils::is_nonoverlapping(0, 4, 4, 4));
    assert!(!fulgurite::utils::is_nonoverlapping(0, 5, 4, 4));
    assert!(fulgurite::utils::compare_arrays(&[1, 2], &[1, 2]));
    assert!(!fulgurite::utils::compare_arrays(&[1, 2], &[1, 3]));
}

// A decodable but unimplemented system operation draws the generic error,
// not the decoding error.
#[test]
fn unimplemented_system_instruction() {
    let payer = Pubkey::new_rand();
    // Wire tag 3 names the seed-based account creation, which this
    // runtime recognizes but does not implement.
    let mut data = vec![3u8, 0, 0, 0];
    data.extend(vec![0u8; 88]);
    let idx = fulgurite::instruction::Instruction {
        program_id: system_program_id(),
        accounts: vec![fulgurite::instruction::AccountMeta::new(payer, true)],
        data,
    };
    let r = run_system_instruction(idx, 1000, 0, Vec::new());
    assert_eq!(r, Err(ProgramError::Custom(0)));
}

// The one-sided rule of the exchange: both sides zero, or both nonzero,
// are refused outright.
#[test]
fn exchange_side_rule() {
    let pool_program = Program::inline(Entrypoint::SimplePool, Pubkey::new_rand());
    let system_program = Program::system_program();
    let owner = Account::new(Pubkey::new_rand(), 1000000000, &system_program_id(), Vec::new());

    for (dl, dr, code) in [(0u64, 0u64, 3u32), (5, 5, 4)] {
        let (receipt, _accounts) = pool_program.invoke_with_borsh(
            &PoolInstruction::Exchange { amount_left: dl, amount_right: dr },
            vec![owner.meta(true, true), system_program.meta()],
        );
        assert_eq!(receipt.result, Err(ProgramError::Custom(code)));
    }
}

// Reading an id back from its base58 text inverts the rendering.
#[test]
fn base58_text_round_trip() {
    let pk = Pubkey::new_from_array([7u8; 32]);
    let text = pk.to_base58();
    let back = fulgurite::pubkey::Pubkey::from_str(text.as_str()).unwrap();
    assert_eq!(back.to_bytes(), pk.to_bytes());

    let zeros = fulgurite::pubkey::Pubkey::from_str("11111111111111111111111111111111").unwrap();
    assert_eq!(zeros.to_bytes(), [0u8; 32]);

    assert_eq!(
        fulgurite::pubkey::Pubkey::from_str("0"),
        Err(fulgurite::pubkey::ParsePubkeyError::Invalid)
    );
    assert_eq!(
        fulgurite::pubkey::Pubkey::from_str("abc"),
        Err(fulgurite::pubkey::ParsePubkeyError::WrongSize)
    );
}

// The bundled token program's refusals, each on its triggering input.
#[test]
fn token_transfer_error_inputs() {
    let src_owner = Pubkey::new_rand();
    let mint = Pubkey::new_rand();
    let src_key = Pubkey::new_rand();
    let dst_key = Pubkey::new_rand();
    let auth_key = Pubkey::new_rand();

    let src_state = fulgurite::spl::new_token_account_struct(&mint, &src_owner);
    let mut funded = src_state;
    funded.amount = 5;
    let dst_state = fulgurite::spl::new_token_account_struct(&mint, &src_owner);

    let mut entries = vec![
        (src_key, plain_meta(0, funded.pack())),
        (dst_key, plain_meta(0, dst_state.pack())),
        (auth_key, plain_meta(0, Vec::new())),
    ];
    entries[2].1.is_signer = true;
    let mut scope = Scope::new(entries);
    scope.receipt.call_stack.push(Pubkey::new_rand());
    let views = top_level_infos(&scope);

    // The authority is not the source's owner.
    let mut data = vec![3u8];
    data.extend(1u64.to_le_bytes());
    let r = fulgurite::spl::token_process_instruction(
        &Pubkey::new_rand(),
        &views,
        &data,
        &mut scope,
    );
    assert_eq!(r, Err(ProgramError::Custom(4)));

    // The right owner, but more than the source holds.
    let mut owned = funded;
    owned.owner = auth_key;
    scope.metas[0].1.data = owned.pack();
    let mut data2 = vec![3u8];
    data2.extend(100u64.to_le_bytes());
    let r2 = fulgurite::spl::token_process_instruction(
        &Pubkey::new_rand(),
        &views,
        &data2,
        &mut scope,
    );
    assert_eq!(r2, Err(ProgramError::Custom(1)));
}
