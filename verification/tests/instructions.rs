use bundle_sender::instruction::{
    bribe_ix, build_bribe_ix, AccountMeta, ComputeBudget, Instruction, COMPUTE_BUDGET_PROGRAM,
    DYNAMIC_COMPUTE_UNITS, JITO_RECIPIENTS, SYSTEM_PROGRAM,
};
use bundle_sender::limits::is_signable;
use bundle_sender::miner::{bundle_instructions, gateway_instructions};
use std::str::FromStr;

fn address(text: &str) -> [u8; 32] {
    solana_sdk::pubkey::Pubkey::from_str(text).unwrap().to_bytes()
}

fn note(program: u8, accounts: Vec<AccountMeta>, data: Vec<u8>) -> Instruction {
    Instruction { program_id: [program; 32], accounts, data }
}

fn meta(key: u8, is_signer: bool, is_writable: bool) -> AccountMeta {
    AccountMeta { pubkey: [key; 32], is_signer, is_writable }
}

#[test]
fn recipients_are_the_main_network_accounts() {
    let texts = [
        "96gYZGLnJYVFmbjzopPSU6QiEV5fGqZNyN9nmNhvrZU5",
        "HFqU5x63VTqvQss8hp11i4wVV8bD44PvwucfZ2bU7gRe",
        "Cw8CFyM9FkoMi7K7Crf6HNQqf4uEMzpKw6QNghXLvLkY",
        "ADaUMid9yfUytqMBgopwjb2DTLSokTSzL1zt6iGPaS49",
        "DfXygSm4jCyNCybVYYK6DwvWqjKee8pbDmJGcLWNDXjh",
        "ADuUkR4vqLUMWXxW9gh6D6L8pMSawimctcNZ5pGwDcEt",
        "DttWaMuVvTiduZRnguLF7jNxTgiMBZ1hyAumKUiL2KRL",
        "3AVi9Tg9Uo68tJfuvoKvqKNWKkC5wPdSSdeBnizKZ6jT",
    ];
    assert_eq!(JITO_RECIPIENTS.len(), texts.len());
    for (recipient, text) in JITO_RECIPIENTS.iter().zip(texts) {
        assert_eq!(*recipient, address(text));
    }
    assert_eq!(COMPUTE_BUDGET_PROGRAM, address("ComputeBudget111111111111111111111111111111"));
    assert_eq!(SYSTEM_PROGRAM, solana_sdk::system_program::id().to_bytes());
}

#[test]
fn tip_is_a_transfer_from_the_payer() {
    for recipient in 0..JITO_RECIPIENTS.len() {
        let ix = bribe_ix(&[9; 32], 0x0102_0304_0506_0708, recipient);
        assert_eq!(ix.program_id, SYSTEM_PROGRAM);
        assert_eq!(ix.data, vec![2, 0, 0, 0, 8, 7, 6, 5, 4, 3, 2, 1]);
        assert_eq!(ix.accounts.len(), 2);
        assert_eq!(ix.accounts[0].pubkey, [9; 32]);
        assert!(ix.accounts[0].is_signer && ix.accounts[0].is_writable);
        assert_eq!(ix.accounts[1].pubkey, JITO_RECIPIENTS[recipient]);
        assert!(!ix.accounts[1].is_signer && ix.accounts[1].is_writable);
    }
}

#[test]
fn tip_goes_to_some_recipient() {
    for _ in 0..50 {
        let ix = build_bribe_ix(&[9; 32], 5);
        assert!(JITO_RECIPIENTS.contains(&ix.accounts[1].pubkey));
        assert_eq!(ix.accounts[0].pubkey, [9; 32]);
        assert_eq!(ix.data, vec![2, 0, 0, 0, 5, 0, 0, 0, 0, 0, 0, 0]);
    }
}

#[test]
fn gateway_list_sets_the_budget_first() {
    let own = [note(1, vec![meta(2, false, true)], vec![7, 8]), note(3, vec![], vec![])];
    let list = gateway_instructions(ComputeBudget::Fixed(0x0102_0304), 0x0a0b, &own);
    assert_eq!(list.len(), 4);
    assert_eq!(list[0].program_id, COMPUTE_BUDGET_PROGRAM);
    assert!(list[0].accounts.is_empty());
    assert_eq!(list[0].data, vec![2, 4, 3, 2, 1]);
    assert_eq!(list[1].program_id, COMPUTE_BUDGET_PROGRAM);
    assert!(list[1].accounts.is_empty());
    assert_eq!(list[1].data, vec![3, 0x0b, 0x0a, 0, 0, 0, 0, 0, 0]);
    assert_eq!(list[2].program_id, [1; 32]);
    assert_eq!(list[2].data, vec![7, 8]);
    assert_eq!(list[2].accounts[0].pubkey, [2; 32]);
    assert!(list[2].accounts[0].is_writable && !list[2].accounts[0].is_signer);
    assert_eq!(list[3].program_id, [3; 32]);
}

#[test]
fn dynamic_budget_asks_for_the_default_units() {
    assert_eq!(DYNAMIC_COMPUTE_UNITS, 1_400_000);
    let list = gateway_instructions(ComputeBudget::Dynamic, 0, &[]);
    assert_eq!(list.len(), 2);
    let mut data = vec![2];
    data.extend_from_slice(&1_400_000u32.to_le_bytes());
    assert_eq!(list[0].data, data);
}

#[test]
fn bundle_list_pays_a_tip_instead_of_a_price() {
    let own = [note(1, vec![], vec![42])];
    let list = bundle_instructions(ComputeBudget::Dynamic, bribe_ix(&[9; 32], 77, 3), &own);
    assert_eq!(list.len(), 4);
    assert_eq!(list[1].data, vec![3, 0, 0, 0, 0, 0, 0, 0, 0]);
    assert_eq!(list[2].program_id, SYSTEM_PROGRAM);
    assert_eq!(list[2].accounts[1].pubkey, JITO_RECIPIENTS[3]);
    assert_eq!(list[3].data, vec![42]);
}

#[test]
fn one_foreign_signer_is_too_many() {
    let payer = [9; 32];
    assert!(is_signable(&vec![], &payer));
    assert!(is_signable(&vec![note(1, vec![meta(9, true, false)], vec![])], &payer));
    assert!(!is_signable(&vec![note(1, vec![meta(8, true, false)], vec![])], &payer));
}

#[test]
fn read_only_accounts_are_counted_once() {
    let payer = [9; 32];
    let distinct = |count: u16| -> Vec<AccountMeta> {
        (0..count)
            .map(|i| {
                let mut pubkey = [1u8; 32];
                pubkey[0] = (i % 256) as u8;
                pubkey[1] = (i / 256) as u8 + 100;
                AccountMeta { pubkey, is_signer: false, is_writable: false }
            })
            .collect()
    };
    // The program is a read-only account too.
    assert!(is_signable(&vec![note(1, distinct(254), vec![])], &payer));
    assert!(!is_signable(&vec![note(1, distinct(255), vec![])], &payer));
    let mut twice = distinct(254);
    twice.extend(distinct(254));
    assert!(is_signable(&vec![note(1, twice, vec![])], &payer));
    let mut written = distinct(300);
    for account in written.iter_mut() {
        account.is_writable = true;
    }
    assert!(is_signable(&vec![note(1, written, vec![])], &payer));
}

#[test]
fn lists_of_the_wire_format_have_an_end() {
    let payer = [9; 32];
    assert!(is_signable(&vec![note(1, vec![], vec![0; 65535])], &payer));
    assert!(!is_signable(&vec![note(1, vec![], vec![0; 65536])], &payer));
    assert!(!is_signable(&vec![note(1, vec![meta(2, false, false); 65536], vec![])], &payer));
    let many: Vec<Instruction> = (0..65536).map(|_| note(1, vec![], vec![])).collect();
    assert!(!is_signable(&many, &payer));
}
