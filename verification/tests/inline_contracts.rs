use fulgurite::account::Account;
use fulgurite::counter::Counter;
use fulgurite::descriptor::DescriptorInstruction;
use fulgurite::package::Entrypoint;
use fulgurite::program::{find_account, Program};
use fulgurite::pubkey::Pubkey;
use fulgurite::viewer::ViewerInstruction;

#[test]
fn test_log() {
    let system_program = Program::system_program();
    let viewer = Program::inline(Entrypoint::Viewer, Pubkey::new_rand());
    let payer_ai = Account::new(Pubkey::new_rand(), 1000000000, &system_program.pubkey, Vec::new());

    let (receipt, _accounts) = viewer.invoke_with_borsh(
        &ViewerInstruction::Log,
        vec![payer_ai.meta(true, true)],
    );

    println!("{:?}", receipt);
    assert_eq!(receipt.result, Ok(()));
    assert!(receipt.contains_program_log("Simple log"));
}

#[test]
fn test_log_data() {
    let system_program = Program::system_program();
    let viewer = Program::inline(Entrypoint::Viewer, Pubkey::new_rand());
    let payer_ai = Account::new(Pubkey::new_rand(), 1000000000, &system_program.pubkey, Vec::new());

    let (receipt, _accounts) = viewer.invoke_with_borsh(
        &ViewerInstruction::LogData,
        vec![payer_ai.meta(true, true)],
    );

    println!("{:?}", receipt);
    assert_eq!(receipt.result, Ok(()));
    assert!(receipt.contains_data(&viewer.pubkey, &vec![vec![1, 2, 3, 4]]));
}

#[test]
fn test_account_read() {
    let system_program = Program::system_program();
    let descriptor = Program::inline(Entrypoint::Descriptor, Pubkey::new_rand());
    let payer_ai = Account::new(Pubkey::new_rand(), 1000000000, &system_program.pubkey, Vec::new());
    let counter_ai = Account::new(
        Pubkey::new_rand(),
        1000,
        &descriptor.pubkey,
        Vec::from(u64::to_le_bytes(17)),
    );

    let (receipt, _accounts) = descriptor.invoke_with_borsh(
        &DescriptorInstruction::ReadToLog,
        vec![payer_ai.meta(true, true), counter_ai.meta(false, false)],
    );

    println!("{:?}", receipt);
    assert_eq!(receipt.result, Ok(()));
    assert!(receipt.contains_data(&descriptor.pubkey, &vec![u64::to_le_bytes(17).to_vec()]));
}

#[test]
fn test_account_write() {
    let system_program = Program::system_program();
    let descriptor = Program::inline(Entrypoint::Descriptor, Pubkey::new_rand());
    let payer_ai = Account::new(Pubkey::new_rand(), 1000000000, &system_program.pubkey, Vec::new());
    let counter_ai = Account::new(
        Pubkey::new_rand(),
        1000,
        &descriptor.pubkey,
        Vec::from(u64::to_le_bytes(17)),
    );
    let counter_key = counter_ai.pubkey;

    let (receipt, accounts) = descriptor.invoke_with_borsh(
        &DescriptorInstruction::WriteData { value: 999 },
        vec![payer_ai.meta(true, true), counter_ai.meta(false, true)],
    );

    println!("{:?}", receipt);
    assert_eq!(receipt.result, Ok(()));
    let counter_after = find_account(&accounts, &counter_key).unwrap();
    let counter = Counter::from_bytes(&counter_after.data);
    assert_eq!(counter.value, 999);
}

#[test]
fn test_account_create() {
    let system_program = Program::system_program();
    let descriptor = Program::inline(Entrypoint::Descriptor, Pubkey::new_rand());
    let payer_ai = Account::new(Pubkey::new_rand(), 1000000000, &system_program.pubkey, Vec::new());
    let counter_ai = Account::new(Pubkey::new_rand(), 0, &system_program.pubkey, Vec::new());

    let (receipt, _accounts) = descriptor.invoke_with_borsh(
        &DescriptorInstruction::CreateAccount,
        vec![
            payer_ai.meta(true, true),
            counter_ai.meta(true, true),
            system_program.meta(),
        ],
    );

    println!("{:?}", receipt);
    assert_eq!(receipt.result, Ok(()));
}

#[test]
fn test_call_and_read() {
    let system_program = Program::system_program();
    let descriptor = Program::inline(Entrypoint::Descriptor, Pubkey::new_rand());
    let viewer = Program::inline(Entrypoint::Viewer, Pubkey::new_rand());
    let payer_ai = Account::new(Pubkey::new_rand(), 1000000000, &system_program.pubkey, Vec::new());
    let counter_ai = Account::new(
        Pubkey::new_rand(),
        1000,
        &descriptor.pubkey,
        Vec::from(u64::to_le_bytes(17)),
    );
    let counter_key = counter_ai.pubkey;

    let (receipt, accounts) = viewer.invoke_with_borsh(
        &ViewerInstruction::CallAndRead,
        vec![
            payer_ai.meta(true, true),
            counter_ai.meta(false, true),
            descriptor.meta(),
        ],
    );

    println!("{:?}", receipt);
    assert_eq!(receipt.result, Ok(()));
    let counter_after = find_account(&accounts, &counter_key).unwrap();
    let counter = Counter::from_bytes(&counter_after.data);
    assert_eq!(counter.value, 99);
}

#[test]
fn test_transfer_sol() {
    let system_program = Program::system_program();
    let descriptor = Program::inline(Entrypoint::Descriptor, Pubkey::new_rand());
    let payer_ai = Account::new(Pubkey::new_rand(), 1000000000, &system_program.pubkey, Vec::new());
    let counter_ai = Account::new(Pubkey::new_rand(), 1000, &system_program.pubkey, Vec::new());

    let (receipt, _accounts) = descriptor.invoke_with_borsh(
        &DescriptorInstruction::TransferSol { amount: 12345678 },
        vec![
            payer_ai.meta(true, true),
            counter_ai.meta(false, true),
            system_program.meta(),
        ],
    );

    println!("{:?}", receipt);
    assert_eq!(receipt.result, Ok(()));
}

#[test]
fn test_create_account_pda() {
    let system_program = Program::system_program();
    let descriptor = Program::inline(Entrypoint::Descriptor, Pubkey::new_rand());
    let payer_ai = Account::new(Pubkey::new_rand(), 1000000000, &system_program.pubkey, Vec::new());

    let seeds = vec![
        b"counter".to_vec(),
        payer_ai.pubkey.as_bytes().to_vec(),
        descriptor.pubkey.as_bytes().to_vec(),
    ];
    let (counter_key, _bump) =
        Pubkey::try_find_program_address(&seeds, &descriptor.pubkey).unwrap();

    let counter_ai = Account::new(counter_key, 0, &system_program.pubkey, Vec::new());

    let (receipt, _accounts) = descriptor.invoke_with_borsh(
        &DescriptorInstruction::CreateAccountPDA,
        vec![
            payer_ai.meta(true, true),
            counter_ai.meta(false, true),
            system_program.meta(),
        ],
    );

    println!("{:?}", receipt);
    assert_eq!(receipt.result, Ok(()));
}

#[test]
fn test_account_singed_pda() {
    let system_program = Program::system_program();
    let descriptor = Program::inline(Entrypoint::Descriptor, Pubkey::new_rand());
    let viewer = Program::inline(Entrypoint::Viewer, Pubkey::new_rand());
    let payer_ai = Account::new(Pubkey::new_rand(), 1000000000, &system_program.pubkey, Vec::new());

    let seeds = vec![
        b"viewer".to_vec(),
        payer_ai.pubkey.as_bytes().to_vec(),
        viewer.pubkey.as_bytes().to_vec(),
    ];
    let (pda_key, _bump) = Pubkey::try_find_program_address(&seeds, &viewer.pubkey).unwrap();

    let pda_ai = Account::new(pda_key, 0, &system_program.pubkey, Vec::new());

    let (receipt, _accounts) = viewer.invoke_with_borsh(
        &ViewerInstruction::PDASignature,
        vec![
            payer_ai.meta(true, true),
            pda_ai.meta(false, false),
            descriptor.meta(),
        ],
    );

    println!("{:?}", receipt);
    assert_eq!(receipt.result, Ok(()));
}

#[test]
fn test_account_realloc() {
    let system_program = Program::system_program();
    let viewer = Program::inline(Entrypoint::Viewer, Pubkey::new_rand());
    let payer_ai = Account::new(Pubkey::new_rand(), 1000000000, &system_program.pubkey, Vec::new());
    let account_ai = Account::new(Pubkey::new_rand(), 0, &system_program.pubkey, vec![1, 2, 3, 4]);
    let account_key = account_ai.pubkey;

    let (receipt, accounts) = viewer.invoke_with_borsh(
        &ViewerInstruction::ReallocAccount { new_size: 8 },
        vec![
            payer_ai.meta(true, true),
            account_ai.meta(false, true),
            system_program.meta(),
        ],
    );

    println!("{:?}", receipt);
    assert_eq!(receipt.result, Ok(()));
    let account_after = find_account(&accounts, &account_key).unwrap();
    assert!(account_after.expect_bytes(&[1, 2, 3, 4, 0, 0, 0, 0]));
}
