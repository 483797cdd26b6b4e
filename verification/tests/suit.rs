use fulgurite::account::Account;
use fulgurite::program::Program;
use fulgurite::program_ids::{associated_program_id, spl_program_id, system_program_id, sysvar_program_id};
use fulgurite::pubkey::Pubkey;
use fulgurite::spl::{new_mint_struct, new_token_account_struct, try_get_associated_token_address, SPLAccount, SPLMint};
use fulgurite::typed_account::{PackedWrapper, TypedAccount};
use fulgurite::utils::rent_exempt_for_size;

#[test]
fn test_account_init() {
    let acc1 = Account::new(Pubkey::new_rand(), 0, &system_program_id(), Vec::new());
    assert!(acc1.expect_balance(0));
    assert!(acc1.expect_owner(&system_program_id()));

    let acc2 = Account::new(Pubkey::new_rand(), 1000, &system_program_id(), Vec::new());
    assert!(acc2.expect_balance(1000));
    assert!(acc2.expect_owner(&system_program_id()));

    let acc3 = Account::new(associated_program_id(), 1234, &system_program_id(), Vec::new());
    assert!(acc3.expect_balance(1234));
    assert!(acc3.pubkey.eq(&associated_program_id()));

    let acc4 = Account::new(
        associated_program_id(),
        rent_exempt_for_size(4),
        &sysvar_program_id(),
        vec![1, 2, 3, 4],
    );
    assert!(acc4.expect_balance(rent_exempt_for_size(4)));
}

#[test]
fn test_program_init() {}

fn mint_tokens(
    mint: &mut TypedAccount<PackedWrapper<SPLMint>>,
    account: &mut TypedAccount<PackedWrapper<SPLAccount>>,
    amount: u64,
) {
    let mut m = mint.data.data;
    m.supply += amount;
    mint.set(PackedWrapper::new(m));
    let mut a = account.data.data;
    a.amount += amount;
    account.set(PackedWrapper::new(a));
}

fn burn_tokens(
    mint: &mut TypedAccount<PackedWrapper<SPLMint>>,
    account: &mut TypedAccount<PackedWrapper<SPLAccount>>,
    amount: u64,
) {
    let mut m = mint.data.data;
    let mut a = account.data.data;
    if a.amount < amount {
        m.supply -= a.amount;
        a.amount = 0;
    } else {
        m.supply -= amount;
        a.amount -= amount;
    }
    mint.set(PackedWrapper::new(m));
    account.set(PackedWrapper::new(a));
}

fn transfer_tokens(
    from: &mut TypedAccount<PackedWrapper<SPLAccount>>,
    to: &mut TypedAccount<PackedWrapper<SPLAccount>>,
    amount: u64,
) {
    let mut f = from.data.data;
    let mut t = to.data.data;
    if f.amount < amount {
        f.amount = 0;
        t.amount += amount;
    } else {
        f.amount -= amount;
        t.amount += amount;
    }
    from.set(PackedWrapper::new(f));
    to.set(PackedWrapper::new(t));
}

#[test]
fn spl_token_init() {
    let _system = Program::system_program();
    let owner = Account::new(Pubkey::new_rand(), 0, &system_program_id(), Vec::new());
    let mut mint1 = TypedAccount::new_packed(
        Pubkey::new_rand(),
        &spl_program_id(),
        new_mint_struct(owner.pubkey(), 0),
    );
    let mut mint2 = TypedAccount::new_packed(
        Pubkey::new_rand(),
        &spl_program_id(),
        new_mint_struct(owner.pubkey(), 9),
    );

    let acc1_key = try_get_associated_token_address(owner.pubkey(), mint1.pubkey())
        .unwrap()
        .0;
    let mut account1 = TypedAccount::new_packed(
        acc1_key,
        &spl_program_id(),
        new_token_account_struct(mint1.pubkey(), owner.pubkey()),
    );
    let mut account2 = TypedAccount::new_packed(
        Pubkey::new_rand(),
        &spl_program_id(),
        new_token_account_struct(mint2.pubkey(), owner.pubkey()),
    );

    mint_tokens(&mut mint1, &mut account1, 100);
    burn_tokens(&mut mint1, &mut account1, 50);
    transfer_tokens(&mut account1, &mut account2, 25);
}
