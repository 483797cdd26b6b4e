use fulgurite::account::Account;
use fulgurite::package::Entrypoint;
use fulgurite::pool::{Pool, PoolInstruction};
use fulgurite::program::{find_account, Program};
use fulgurite::program_ids::{spl_program_id, system_program_id};
use fulgurite::pubkey::Pubkey;
use fulgurite::spl::{
    new_mint_struct, new_token_account_struct, try_get_associated_token_address,
    try_get_vault_account_address, SPLAccount, SPLMint,
};
use fulgurite::typed_account::{BorshedWrapper, PackedWrapper, TypedAccount};

fn mint_tokens(
    mint: &mut TypedAccount<PackedWrapper<SPLMint>>,
    account: &mut TypedAccount<PackedWrapper<SPLAccount>>,
    amount: u64,
) {
    let mut m = mint.data.data;
    m.supply += amount;
    mint.set(PackedWrapper::new(m));
    let mut a = account.data.data;
    a.amount += amount;
    account.set(PackedWrapper::new(a));
}

fn token_amount_of(accounts: &Vec<Account>, key: &Pubkey) -> u64 {
    let acc = find_account(accounts, key).unwrap().clone();
    let typed = TypedAccount::<PackedWrapper<SPLAccount>>::from_account_packed(acc).unwrap();
    typed.data.data.amount
}

#[test]
fn test_create_pool() {
    let pool_program = Program::inline(Entrypoint::SimplePool, Pubkey::new_rand());
    let system_program = Program::system_program();
    let token_program = Program::token_program();
    let sysvar_program = Program::sysvar_program();

    let owner = Account::new(Pubkey::new_rand(), 1000000000, &system_program_id(), Vec::new());
    let mut mint1 = TypedAccount::new_packed(
        Pubkey::new_rand(),
        &spl_program_id(),
        new_mint_struct(owner.pubkey(), 0),
    );
    let mut mint2 = TypedAccount::new_packed(
        Pubkey::new_rand(),
        &spl_program_id(),
        new_mint_struct(owner.pubkey(), 3),
    );

    let pool_key = Pool::try_find_address(
        pool_program.pubkey(),
        owner.pubkey(),
        mint1.pubkey(),
        mint2.pubkey(),
    )
    .unwrap()
    .0;
    let pool_acc = Account::new(pool_key, 0, &system_program_id(), Vec::new());
    let vault1_key = try_get_vault_account_address(pool_program.pubkey(), mint1.pubkey())
        .unwrap()
        .0;
    let vault2_key = try_get_vault_account_address(pool_program.pubkey(), mint2.pubkey())
        .unwrap()
        .0;
    let vault1 = Account::new(vault1_key, 0, &system_program_id(), Vec::new());
    let vault2 = Account::new(vault2_key, 0, &system_program_id(), Vec::new());

    let (receipt, accounts) = pool_program.invoke_with_borsh(
        &PoolInstruction::Create,
        vec![
            owner.meta(true, true),
            system_program.meta(),
            token_program.meta(),
            sysvar_program.meta(),
            pool_acc.meta(false, true),
            mint1.meta(false, true),
            mint2.meta(false, true),
            vault1.meta(false, true),
            vault2.meta(false, true),
        ],
    );

    println!("{:?}", receipt);
    assert_eq!(receipt.result, Ok(()));

    let pool_after = find_account(&accounts, &pool_key).unwrap().clone();
    let pool_typed = TypedAccount::<BorshedWrapper<Pool>>::from_account_borshed(pool_after)
        .unwrap();
    let pool = &pool_typed.data.data;
    assert!(pool.owner.eq(owner.pubkey()));
    assert!(pool.mint_left.eq(mint1.pubkey()));
    assert!(pool.mint_right.eq(mint2.pubkey()));
    assert!(pool.vault_left.eq(&vault1_key));
    assert!(pool.vault_right.eq(&vault2_key));
    assert_eq!(pool.amount_left, 0);
    assert_eq!(pool.amount_right, 0);
}

#[test]
fn test_add_liquidity() {
    let pool_program = Program::inline(Entrypoint::SimplePool, Pubkey::new_rand());
    let token_program = Program::token_program();

    let owner = Account::new(Pubkey::new_rand(), 1000000000, &system_program_id(), Vec::new());
    let mut mint1 = TypedAccount::new_packed(
        Pubkey::new_rand(),
        &spl_program_id(),
        new_mint_struct(owner.pubkey(), 0),
    );
    let mut mint2 = TypedAccount::new_packed(
        Pubkey::new_rand(),
        &spl_program_id(),
        new_mint_struct(owner.pubkey(), 3),
    );
    let acc1_key = try_get_associated_token_address(owner.pubkey(), mint1.pubkey())
        .unwrap()
        .0;
    let acc2_key = try_get_associated_token_address(owner.pubkey(), mint2.pubkey())
        .unwrap()
        .0;
    let mut token_acc1 = TypedAccount::new_packed(
        acc1_key,
        &spl_program_id(),
        new_token_account_struct(mint1.pubkey(), owner.pubkey()),
    );
    let mut token_acc2 = TypedAccount::new_packed(
        acc2_key,
        &spl_program_id(),
        new_token_account_struct(mint2.pubkey(), owner.pubkey()),
    );
    mint_tokens(&mut mint1, &mut token_acc1, 1000);
    mint_tokens(&mut mint2, &mut token_acc2, 1000000);

    let (pool_key, bump) = Pool::try_find_address(
        pool_program.pubkey(),
        owner.pubkey(),
        mint1.pubkey(),
        mint2.pubkey(),
    )
    .unwrap();
    let vault1_key = try_get_vault_account_address(pool_program.pubkey(), mint1.pubkey())
        .unwrap()
        .0;
    let vault2_key = try_get_vault_account_address(pool_program.pubkey(), mint2.pubkey())
        .unwrap()
        .0;
    let mut pool_value = Pool::new(
        owner.pubkey().clone(),
        mint1.pubkey().clone(),
        mint2.pubkey().clone(),
        vault1_key,
        vault2_key,
    );
    pool_value.bump = bump;
    let mut pool = TypedAccount::new_borshed(pool_key, pool_program.pubkey(), pool_value);

    let mut vault1 = TypedAccount::new_packed(
        vault1_key,
        &spl_program_id(),
        new_token_account_struct(mint1.pubkey(), &pool_key),
    );
    let mut vault2 = TypedAccount::new_packed(
        vault2_key,
        &spl_program_id(),
        new_token_account_struct(mint2.pubkey(), &pool_key),
    );

    let (receipt, accounts) = pool_program.invoke_with_borsh(
        &PoolInstruction::ProvideLiquidity { amount_left: 1000, amount_right: 1000000 },
        vec![
            owner.meta(true, true),
            token_program.meta(),
            pool.meta(false, true),
            mint1.meta(false, true),
            mint2.meta(false, true),
            vault1.meta(false, true),
            vault2.meta(false, true),
            token_acc1.meta(false, true),
            token_acc2.meta(false, true),
        ],
    );

    println!("{:?}", receipt);
    assert_eq!(receipt.result, Ok(()));
    let pool_after = find_account(&accounts, &pool_key).unwrap().clone();
    let pool_typed = TypedAccount::<BorshedWrapper<Pool>>::from_account_borshed(pool_after)
        .unwrap();
    assert_eq!(pool_typed.data.data.amount_left, 1000);
    assert_eq!(pool_typed.data.data.amount_right, 1000000);
    assert_eq!(token_amount_of(&accounts, &vault1_key), 1000);
    assert_eq!(token_amount_of(&accounts, &vault2_key), 1000000);
    assert_eq!(token_amount_of(&accounts, &acc1_key), 0);
    assert_eq!(token_amount_of(&accounts, &acc2_key), 0);
}

#[test]
fn test_exchange() {
    let pool_program = Program::inline(Entrypoint::SimplePool, Pubkey::new_rand());
    let system_program = Program::system_program();
    let token_program = Program::token_program();
    let associated_program = Program::associated_token_program();
    let sysvar_program = Program::sysvar_program();

    let owner = Account::new(Pubkey::new_rand(), 1000000000, &system_program_id(), Vec::new());
    let mut mint1 = TypedAccount::new_packed(
        Pubkey::new_rand(),
        &spl_program_id(),
        new_mint_struct(owner.pubkey(), 0),
    );
    let mut mint2 = TypedAccount::new_packed(
        Pubkey::new_rand(),
        &spl_program_id(),
        new_mint_struct(owner.pubkey(), 3),
    );
    let acc1_key = try_get_associated_token_address(owner.pubkey(), mint1.pubkey())
        .unwrap()
        .0;
    let acc2_key = try_get_associated_token_address(owner.pubkey(), mint2.pubkey())
        .unwrap()
        .0;
    let mut token_acc1 = TypedAccount::new_packed(
        acc1_key,
        &spl_program_id(),
        new_token_account_struct(mint1.pubkey(), owner.pubkey()),
    );
    let token_acc2 = Account::new(acc2_key, 0, &system_program_id(), Vec::new());
    mint_tokens(&mut mint1, &mut token_acc1, 10);

    let (pool_key, bump) = Pool::try_find_address(
        pool_program.pubkey(),
        owner.pubkey(),
        mint1.pubkey(),
        mint2.pubkey(),
    )
    .unwrap();
    let vault1_key = try_get_vault_account_address(pool_program.pubkey(), mint1.pubkey())
        .unwrap()
        .0;
    let vault2_key = try_get_vault_account_address(pool_program.pubkey(), mint2.pubkey())
        .unwrap()
        .0;
    let mut vault1 = TypedAccount::new_packed(
        vault1_key,
        &spl_program_id(),
        new_token_account_struct(mint1.pubkey(), &pool_key),
    );
    let mut vault2 = TypedAccount::new_packed(
        vault2_key,
        &spl_program_id(),
        new_token_account_struct(mint2.pubkey(), &pool_key),
    );
    mint_tokens(&mut mint1, &mut vault1, 1000);
    mint_tokens(&mut mint2, &mut vault2, 1000000);

    let mut pool_value = Pool::new(
        owner.pubkey().clone(),
        mint1.pubkey().clone(),
        mint2.pubkey().clone(),
        vault1_key,
        vault2_key,
    );
    pool_value.bump = bump;
    pool_value.amount_left = 1000;
    pool_value.amount_right = 1000000;
    let mut pool = TypedAccount::new_borshed(pool_key, pool_program.pubkey(), pool_value);

    let (receipt, accounts) = pool_program.invoke_with_borsh(
        &PoolInstruction::Exchange { amount_left: 10, amount_right: 0 },
        vec![
            owner.meta(true, true),
            system_program.meta(),
            token_program.meta(),
            associated_program.meta(),
            sysvar_program.meta(),
            pool.meta(false, true),
            mint1.meta(false, true),
            mint2.meta(false, true),
            vault1.meta(false, true),
            vault2.meta(false, true),
            token_acc1.meta(false, true),
            token_acc2.meta(false, true),
        ],
    );

    println!("{:?}", receipt);
    assert_eq!(receipt.result, Ok(()));
    let pool_after = find_account(&accounts, &pool_key).unwrap().clone();
    let pool_typed = TypedAccount::<BorshedWrapper<Pool>>::from_account_borshed(pool_after)
        .unwrap();
    assert_eq!(pool_typed.data.data.amount_left, 1010);
    assert_eq!(pool_typed.data.data.amount_right, 990100);
    assert_eq!(token_amount_of(&accounts, &vault1_key), 1010);
    assert_eq!(token_amount_of(&accounts, &vault2_key), 990100);
    assert_eq!(token_amount_of(&accounts, &acc1_key), 0);
    assert_eq!(token_amount_of(&accounts, &acc2_key), 9900);
}

// The right-to-left exchange: the stored pool moves by the
// constant-product rule; the vault payout mirrors the original's
// behavior of paying the input amount from the left vault.
#[test]
fn test_exchange_right_to_left() {
    let pool_program = Program::inline(Entrypoint::SimplePool, Pubkey::new_rand());
    let system_program = Program::system_program();
    let token_program = Program::token_program();
    let associated_program = Program::associated_token_program();
    let sysvar_program = Program::sysvar_program();

    let owner = Account::new(Pubkey::new_rand(), 1000000000, &system_program_id(), Vec::new());
    let mut mint1 = TypedAccount::new_packed(
        Pubkey::new_rand(),
        &spl_program_id(),
        new_mint_struct(owner.pubkey(), 0),
    );
    let mut mint2 = TypedAccount::new_packed(
        Pubkey::new_rand(),
        &spl_program_id(),
        new_mint_struct(owner.pubkey(), 0),
    );
    let acc1_key = try_get_associated_token_address(owner.pubkey(), mint1.pubkey())
        .unwrap()
        .0;
    let acc2_key = try_get_associated_token_address(owner.pubkey(), mint2.pubkey())
        .unwrap()
        .0;
    let mut token_acc1 = TypedAccount::new_packed(
        acc1_key,
        &spl_program_id(),
        new_token_account_struct(mint1.pubkey(), owner.pubkey()),
    );
    let mut token_acc2 = TypedAccount::new_packed(
        acc2_key,
        &spl_program_id(),
        new_token_account_struct(mint2.pubkey(), owner.pubkey()),
    );
    mint_tokens(&mut mint2, &mut token_acc2, 10);

    let (pool_key, bump) = Pool::try_find_address(
        pool_program.pubkey(),
        owner.pubkey(),
        mint1.pubkey(),
        mint2.pubkey(),
    )
    .unwrap();
    let vault1_key = try_get_vault_account_address(pool_program.pubkey(), mint1.pubkey())
        .unwrap()
        .0;
    let vault2_key = try_get_vault_account_address(pool_program.pubkey(), mint2.pubkey())
        .unwrap()
        .0;
    let mut vault1 = TypedAccount::new_packed(
        vault1_key,
        &spl_program_id(),
        new_token_account_struct(mint1.pubkey(), &pool_key),
    );
    let mut vault2 = TypedAccount::new_packed(
        vault2_key,
        &spl_program_id(),
        new_token_account_struct(mint2.pubkey(), &pool_key),
    );
    mint_tokens(&mut mint1, &mut vault1, 1000000);
    mint_tokens(&mut mint2, &mut vault2, 1000);

    let mut pool_value = Pool::new(
        owner.pubkey().clone(),
        mint1.pubkey().clone(),
        mint2.pubkey().clone(),
        vault1_key,
        vault2_key,
    );
    pool_value.bump = bump;
    pool_value.amount_left = 1000000;
    pool_value.amount_right = 1000;
    let mut pool = TypedAccount::new_borshed(pool_key, pool_program.pubkey(), pool_value);

    let (receipt, accounts) = pool_program.invoke_with_borsh(
        &PoolInstruction::Exchange { amount_left: 0, amount_right: 10 },
        vec![
            owner.meta(true, true),
            system_program.meta(),
            token_program.meta(),
            associated_program.meta(),
            sysvar_program.meta(),
            pool.meta(false, true),
            mint1.meta(false, true),
            mint2.meta(false, true),
            vault1.meta(false, true),
            vault2.meta(false, true),
            token_acc1.meta(false, true),
            token_acc2.meta(false, true),
        ],
    );

    println!("{:?}", receipt);
    assert_eq!(receipt.result, Ok(()));
    let pool_after = find_account(&accounts, &pool_key).unwrap().clone();
    let pool_typed = TypedAccount::<BorshedWrapper<Pool>>::from_account_borshed(pool_after)
        .unwrap();
    assert_eq!(pool_typed.data.data.amount_left, 990100);
    assert_eq!(pool_typed.data.data.amount_right, 1010);
    assert_eq!(token_amount_of(&accounts, &vault2_key), 1010);
    assert_eq!(token_amount_of(&accounts, &acc2_key), 0);
    // The payout leg moves the input amount from the left vault, as the
    // original did.
    assert_eq!(token_amount_of(&accounts, &vault1_key), 999990);
    assert_eq!(token_amount_of(&accounts, &acc1_key), 10);
}

// Adding liquidity to a non-empty pool matches the stored ratio.
#[test]
fn test_add_liquidity_ratio() {
    let pool_program = Program::inline(Entrypoint::SimplePool, Pubkey::new_rand());
    let token_program = Program::token_program();

    let owner = Account::new(Pubkey::new_rand(), 1000000000, &system_program_id(), Vec::new());
    let mut mint1 = TypedAccount::new_packed(
        Pubkey::new_rand(),
        &spl_program_id(),
        new_mint_struct(owner.pubkey(), 0),
    );
    let mut mint2 = TypedAccount::new_packed(
        Pubkey::new_rand(),
        &spl_program_id(),
        new_mint_struct(owner.pubkey(), 0),
    );
    let acc1_key = try_get_associated_token_address(owner.pubkey(), mint1.pubkey())
        .unwrap()
        .0;
    let acc2_key = try_get_associated_token_address(owner.pubkey(), mint2.pubkey())
        .unwrap()
        .0;
    let mut token_acc1 = TypedAccount::new_packed(
        acc1_key,
        &spl_program_id(),
        new_token_account_struct(mint1.pubkey(), owner.pubkey()),
    );
    let mut token_acc2 = TypedAccount::new_packed(
        acc2_key,
        &spl_program_id(),
        new_token_account_struct(mint2.pubkey(), owner.pubkey()),
    );
    mint_tokens(&mut mint1, &mut token_acc1, 500);
    mint_tokens(&mut mint2, &mut token_acc2, 500000);

    let (pool_key, bump) = Pool::try_find_address(
        pool_program.pubkey(),
        owner.pubkey(),
        mint1.pubkey(),
        mint2.pubkey(),
    )
    .unwrap();
    let vault1_key = try_get_vault_account_address(pool_program.pubkey(), mint1.pubkey())
        .unwrap()
        .0;
    let vault2_key = try_get_vault_account_address(pool_program.pubkey(), mint2.pubkey())
        .unwrap()
        .0;
    let mut vault1 = TypedAccount::new_packed(
        vault1_key,
        &spl_program_id(),
        new_token_account_struct(mint1.pubkey(), &pool_key),
    );
    let mut vault2 = TypedAccount::new_packed(
        vault2_key,
        &spl_program_id(),
        new_token_account_struct(mint2.pubkey(), &pool_key),
    );
    mint_tokens(&mut mint1, &mut vault1, 1000);
    mint_tokens(&mut mint2, &mut vault2, 1000000);

    let mut pool_value = Pool::new(
        owner.pubkey().clone(),
        mint1.pubkey().clone(),
        mint2.pubkey().clone(),
        vault1_key,
        vault2_key,
    );
    pool_value.bump = bump;
    pool_value.amount_left = 1000;
    pool_value.amount_right = 1000000;
    let mut pool = TypedAccount::new_borshed(pool_key, pool_program.pubkey(), pool_value);

    let (receipt, accounts) = pool_program.invoke_with_borsh(
        &PoolInstruction::ProvideLiquidity { amount_left: 500, amount_right: 7 },
        vec![
            owner.meta(true, true),
            token_program.meta(),
            pool.meta(false, true),
            mint1.meta(false, true),
            mint2.meta(false, true),
            vault1.meta(false, true),
            vault2.meta(false, true),
            token_acc1.meta(false, true),
            token_acc2.meta(false, true),
        ],
    );

    println!("{:?}", receipt);
    assert_eq!(receipt.result, Ok(()));
    let pool_after = find_account(&accounts, &pool_key).unwrap().clone();
    let pool_typed = TypedAccount::<BorshedWrapper<Pool>>::from_account_borshed(pool_after)
        .unwrap();
    // 500 left against a 1000/1000000 pool pulls 500000 right-tokens.
    assert_eq!(pool_typed.data.data.amount_left, 1500);
    assert_eq!(pool_typed.data.data.amount_right, 1500000);
    assert_eq!(token_amount_of(&accounts, &vault1_key), 1500);
    assert_eq!(token_amount_of(&accounts, &vault2_key), 1500000);
    assert_eq!(token_amount_of(&accounts, &acc1_key), 0);
    assert_eq!(token_amount_of(&accounts, &acc2_key), 0);
}
