use bundle_sender::instruction::{AccountMeta, Instruction};
use bundle_sender::transaction::{compile, sign_message, signature_to_text, Keypair};
use solana_sdk::signature::Signer;
use solana_transaction_status::EncodedTransaction;

fn sdk_keypair() -> solana_sdk::signature::Keypair {
    solana_sdk::signature::keypair_from_seed(&[7u8; 32]).unwrap()
}

fn list() -> Vec<Instruction> {
    vec![
        Instruction {
            program_id: [1; 32],
            accounts: vec![
                AccountMeta { pubkey: [2; 32], is_signer: false, is_writable: true },
                AccountMeta { pubkey: [3; 32], is_signer: false, is_writable: false },
            ],
            data: vec![10, 11],
        },
        Instruction {
            program_id: [4; 32],
            accounts: vec![AccountMeta { pubkey: [2; 32], is_signer: false, is_writable: false }],
            data: vec![12],
        },
    ]
}

fn sdk_list() -> Vec<solana_sdk::instruction::Instruction> {
    list()
        .into_iter()
        .map(|ix| solana_sdk::instruction::Instruction {
            program_id: ix.program_id.into(),
            accounts: ix
                .accounts
                .iter()
                .map(|a| solana_sdk::instruction::AccountMeta {
                    pubkey: a.pubkey.into(),
                    is_signer: a.is_signer,
                    is_writable: a.is_writable,
                })
                .collect(),
            data: ix.data,
        })
        .collect()
}

#[test]
fn keypairs_are_checked() {
    let sdk = sdk_keypair();
    let bytes = sdk.to_bytes();
    let keypair = Keypair::from_bytes(&bytes).unwrap();
    assert_eq!(keypair.pubkey(), sdk.pubkey().to_bytes());
    assert_eq!(keypair.pubkey()[..], bytes[32..]);
    let mut mismatched = bytes;
    mismatched[0] ^= 1;
    assert!(Keypair::from_bytes(&mismatched).is_none());
}

#[test]
fn compiled_message_calls_the_instructions() {
    let keypair = Keypair::from_bytes(&sdk_keypair().to_bytes()).unwrap();
    let payer = keypair.pubkey();
    let message = compile(list(), payer);
    assert_eq!(message.num_required_signatures, 1);
    assert_eq!(message.num_readonly_signed_accounts, 0);
    assert_eq!(message.num_readonly_unsigned_accounts, 3);
    assert_eq!(message.account_keys.len(), 5);
    assert_eq!(message.account_keys[0], payer);
    assert_eq!(message.account_keys[1], [2; 32]);
    for readonly in [[1; 32], [3; 32], [4; 32]] {
        assert!(message.account_keys[2..].contains(&readonly));
    }
    assert_eq!(message.instructions.len(), 2);
    for (compiled, ix) in message.instructions.iter().zip(list()) {
        assert_eq!(message.account_keys[compiled.program_id_index as usize], ix.program_id);
        assert_eq!(compiled.data, ix.data);
        assert_eq!(compiled.accounts.len(), ix.accounts.len());
        for (position, account) in compiled.accounts.iter().zip(ix.accounts) {
            assert_eq!(message.account_keys[*position as usize], account.pubkey);
        }
    }
}

#[test]
fn signed_transaction_is_the_one_that_the_network_expects() {
    let sdk = sdk_keypair();
    let keypair = Keypair::from_bytes(&sdk.to_bytes()).unwrap();
    let blockhash = [5u8; 32];
    let transaction = sign_message(compile(list(), keypair.pubkey()), &keypair, &blockhash);

    let mut expected =
        solana_sdk::transaction::Transaction::new_with_payer(&sdk_list(), Some(&sdk.pubkey()));
    expected.sign(&[&sdk], solana_sdk::hash::Hash::new_from_array(blockhash));

    assert_eq!(transaction.recent_blockhash, blockhash);
    assert_eq!(transaction.signatures.len(), 1);
    assert_eq!(&transaction.signatures[0][..], expected.signatures[0].as_ref());
    assert_eq!(signature_to_text(&transaction.signatures[0]), expected.signatures[0].to_string());

    let text = transaction.encode();
    let decoded = EncodedTransaction::LegacyBinary(text).decode().unwrap();
    assert_eq!(decoded.into_legacy_transaction().unwrap(), expected);
    assert!(expected.verify().is_ok());
}

#[test]
fn another_block_gives_another_signature() {
    let keypair = Keypair::from_bytes(&sdk_keypair().to_bytes()).unwrap();
    let first = sign_message(compile(list(), keypair.pubkey()), &keypair, &[5u8; 32]);
    let again = sign_message(compile(list(), keypair.pubkey()), &keypair, &[5u8; 32]);
    let other = sign_message(compile(list(), keypair.pubkey()), &keypair, &[6u8; 32]);
    assert_eq!(first.signatures[0], again.signatures[0]);
    assert_ne!(first.signatures[0], other.signatures[0]);
}

#[test]
fn signature_text_is_base_58() {
    assert_eq!(signature_to_text(&[0u8; 64]), "1".repeat(64));
}
