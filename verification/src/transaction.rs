//! Transactions: compiled from instructions, signed by one keypair, encoded.

use crate::instruction::{instruction_views, Instruction, InstructionView, Pubkey};
use crate::limits::{account_keys, key_views, readonly_keys, signable, LIST_MAX};
use solana_sdk::hash::Hash as SdkHash;
use solana_sdk::instruction::{
    AccountMeta as SdkAccountMeta, CompiledInstruction as SdkCompiled, Instruction as
    SdkInstruction,
};
use solana_sdk::message::Message as SdkMessage;
use solana_sdk::pubkey::Pubkey as SdkPubkey;
use solana_sdk::signature::{Keypair as SdkKeypair, Signer};
use solana_sdk::transaction::Transaction as SdkTransaction;
use solana_transaction_status::{Encodable, EncodedTransaction, UiTransactionEncoding};
use vstd::prelude::*;

verus! {

/// A signature, as its 64 bytes.
pub type Signature = [u8; 64];

/// The identity of a recent block, as its 32 bytes.
pub type Blockhash = [u8; 32];

/// An instruction whose accounts are positions in the account list of a message.
#[derive(Debug)]
pub struct CompiledInstruction {
    pub program_id_index: u8,
    pub accounts: Vec<u8>,
    pub data: Vec<u8>,
}

/// What a transaction does, before it is bound to a block: the accounts and the
/// compiled instructions.
#[derive(Debug)]
pub struct Message {
    pub num_required_signatures: u8,
    pub num_readonly_signed_accounts: u8,
    pub num_readonly_unsigned_accounts: u8,
    pub account_keys: Vec<Pubkey>,
    pub instructions: Vec<CompiledInstruction>,
}

/// A message for a recent block, with its signatures.
#[derive(Debug)]
pub struct Transaction {
    pub signatures: Vec<Signature>,
    pub recent_blockhash: Blockhash,
    pub message: Message,
}

#[verifier::ext_equal]
pub struct CompiledInstructionView {
    pub program_id_index: u8,
    pub accounts: Seq<u8>,
    pub data: Seq<u8>,
}

#[verifier::ext_equal]
pub struct MessageView {
    pub num_required_signatures: u8,
    pub num_readonly_signed_accounts: u8,
    pub num_readonly_unsigned_accounts: u8,
    pub account_keys: Seq<Seq<u8>>,
    pub instructions: Seq<CompiledInstructionView>,
}

#[verifier::ext_equal]
pub struct TransactionView {
    pub signatures: Seq<Seq<u8>>,
    pub recent_blockhash: Seq<u8>,
    pub message: MessageView,
}

impl View for CompiledInstruction {
    type V = CompiledInstructionView;

    open spec fn view(&self) -> CompiledInstructionView {
        CompiledInstructionView {
            program_id_index: self.program_id_index,
            accounts: self.accounts@,
            data: self.data@,
        }
    }
}

impl View for Message {
    type V = MessageView;

    open spec fn view(&self) -> MessageView {
        MessageView {
            num_required_signatures: self.num_required_signatures,
            num_readonly_signed_accounts: self.num_readonly_signed_accounts,
            num_readonly_unsigned_accounts: self.num_readonly_unsigned_accounts,
            account_keys: key_views(self.account_keys@),
            instructions: self.instructions@.map_values(|ix: CompiledInstruction| ix@),
        }
    }
}

impl View for Transaction {
    type V = TransactionView;

    open spec fn view(&self) -> TransactionView {
        TransactionView {
            signatures: self.signatures@.map_values(|signature: Signature| signature@),
            recent_blockhash: self.recent_blockhash@,
            message: self.message@,
        }
    }
}

/// The compiled instruction calls the program of `ix` on its accounts, with its
/// data.
pub open spec fn stands_for(
    compiled: CompiledInstructionView,
    keys: Seq<Seq<u8>>,
    ix: InstructionView,
) -> bool {
    &&& compiled.program_id_index < keys.len()
    &&& keys[compiled.program_id_index as int] == ix.program_id
    &&& compiled.accounts.len() == ix.accounts.len()
    &&& forall|j: int|
        0 <= j < ix.accounts.len() ==> {
            &&& (#[trigger] compiled.accounts[j]) < keys.len()
            &&& keys[compiled.accounts[j] as int] == ix.accounts[j].pubkey
        }
    &&& compiled.data == ix.data
}

/// The message holds the accounts of the instructions, each once, the payer first
/// and those that nothing may write to last, and counts the latter; it needs the
/// signature of the payer alone.
pub open spec fn lists_accounts(
    message: MessageView,
    ixs: Seq<InstructionView>,
    payer: Seq<u8>,
) -> bool {
    &&& message.num_required_signatures == 1
    &&& message.num_readonly_signed_accounts == 0
    &&& message.num_readonly_unsigned_accounts == readonly_keys(ixs, payer).len()
    &&& message.account_keys.len() > 0
    &&& message.account_keys[0] == payer
    &&& message.account_keys.no_duplicates()
    &&& message.account_keys.to_set() == account_keys(ixs, payer)
    &&& forall|i: int|
        0 <= i < message.account_keys.len() ==> {
            readonly_keys(ixs, payer).contains(#[trigger] message.account_keys[i]) <==> i
                >= message.account_keys.len() - message.num_readonly_unsigned_accounts
        }
}

/// The message calls the instructions in their order.
///
/// A position in the account list has one byte, so with more than 256 accounts
/// the positions say nothing.
pub open spec fn calls_instructions(message: MessageView, ixs: Seq<InstructionView>) -> bool {
    &&& message.instructions.len() == ixs.len()
    &&& forall|i: int|
        0 <= i < ixs.len() ==> {
            &&& (#[trigger] message.instructions[i]).accounts.len() == ixs[i].accounts.len()
            &&& message.instructions[i].data == ixs[i].data
        }
    &&& message.account_keys.len() <= 256 ==> forall|i: int|
        0 <= i < ixs.len() ==> stands_for(
            #[trigger] message.instructions[i],
            message.account_keys,
            ixs[i],
        )
}

/// Every list of the message can be counted in the wire format.
pub open spec fn serializable(message: MessageView) -> bool {
    &&& message.account_keys.len() <= LIST_MAX
    &&& message.instructions.len() <= LIST_MAX
    &&& forall|i: int|
        0 <= i < message.instructions.len() ==> {
            &&& (#[trigger] message.instructions[i]).accounts.len() <= LIST_MAX
            &&& message.instructions[i].data.len() <= LIST_MAX
        }
}

/// The message that `Transaction::new_with_payer` of `solana_sdk` compiles.
pub uninterp spec fn compiled_message(ixs: Seq<InstructionView>, payer: Seq<u8>) -> MessageView;

/// Whether `Keypair::from_bytes` of `solana_sdk` takes the bytes.
pub uninterp spec fn keypair_is_valid(bytes: Seq<u8>) -> bool;

/// The signature that `Transaction::sign` of `solana_sdk` puts under a message, for
/// a block.
pub uninterp spec fn message_signature(
    keypair: Seq<u8>,
    message: MessageView,
    blockhash: Seq<u8>,
) -> Seq<u8>;

/// The text that `Transaction::encode` of `solana_transaction_status` gives in
/// its binary encoding.
pub uninterp spec fn binary_encoding(transaction: TransactionView) -> Seq<char>;

/// The text of a signature, as `solana_sdk` displays it.
pub uninterp spec fn signature_text(signature: Seq<u8>) -> Seq<char>;

/// Calls `Transaction::new_with_payer` of `solana_sdk`.
///
/// Trusted: the message depends on the instructions and the payer alone, names
/// the accounts of the instructions, each once, the payer first and those that
/// nothing may write to last, counts the latter, wants one signature, and calls the
/// instructions in order. The call panics where a count of the header overflows.
#[verifier::external_body]
fn new_with_payer(ixs: Vec<Instruction>, payer: Pubkey) -> (message: Message)
    requires
        signable(instruction_views(ixs@), payer@),
    ensures
        message@ == compiled_message(instruction_views(ixs@), payer@),
        lists_accounts(message@, instruction_views(ixs@), payer@),
        calls_instructions(message@, instruction_views(ixs@)),
{
    let m = SdkTransaction::new_with_payer(&ixs.into_iter().map(|ix| SdkInstruction {
        program_id: ix.program_id.into(),
        accounts: ix.accounts.iter().map(|a| SdkAccountMeta {
            pubkey: a.pubkey.into(), is_signer: a.is_signer, is_writable: a.is_writable,
        }).collect(),
        data: ix.data,
    }).collect::<Vec<_>>(), Some(&payer.into())).message;
    Message {
        num_required_signatures: m.header.num_required_signatures,
        num_readonly_signed_accounts: m.header.num_readonly_signed_accounts,
        num_readonly_unsigned_accounts: m.header.num_readonly_unsigned_accounts,
        account_keys: m.account_keys.into_iter().map(SdkPubkey::to_bytes).collect(),
        instructions: m.instructions.into_iter().map(|c| CompiledInstruction {
            program_id_index: c.program_id_index, accounts: c.accounts, data: c.data }).collect() }
}

/// Calls `Keypair::from_bytes` of `solana_sdk`, and `pubkey` on the keypair.
///
/// Trusted: whether the bytes are taken depends on them alone; the address of a
/// keypair is its last 32 bytes.
#[verifier::external_body]
fn keypair_address(bytes: &[u8; 64]) -> (address: Option<Pubkey>)
    ensures
        address is Some == keypair_is_valid(bytes@),
        address matches Some(key) ==> key@ == bytes@.subrange(32, 64),
{
    SdkKeypair::from_bytes(bytes).ok().map(|keypair| keypair.pubkey().to_bytes())
}

/// Calls `Transaction::sign` of `solana_sdk` with one keypair.
///
/// Trusted: a message with one signer gets one signature, which depends on the
/// keypair, the message and the block. The call panics where the keypair is not
/// that signer, or the message cannot be serialized.
#[verifier::external_body]
fn sign(message: &Message, keypair: &[u8; 64], blockhash: &Blockhash) -> (signatures: Vec<
    Signature,
>)
    requires
        keypair_is_valid(keypair@),
        message.num_required_signatures == 1,
        message.account_keys@.len() > 0,
        message.account_keys@[0]@ == keypair@.subrange(32, 64),
        serializable(message@),
    ensures
        signatures@.len() == 1,
        signatures@[0]@ == message_signature(
            keypair@,
            message@,
            blockhash@,
        ),
{
    let compiled = message.instructions.iter().map(|c| {
        SdkCompiled::new_from_raw_parts(c.program_id_index, c.data.clone(), c.accounts.clone())
    });
    let mut tx = SdkTransaction::new_unsigned(SdkMessage::new_with_compiled_instructions(
        message.num_required_signatures,
        message.num_readonly_signed_accounts,
        message.num_readonly_unsigned_accounts,
        message.account_keys.iter().map(|key| (*key).into()).collect(),
        SdkHash::default(),
        compiled.collect(),
    ));
    tx.sign(&[&SdkKeypair::from_bytes(keypair).unwrap()], SdkHash::new_from_array(*blockhash));
    tx.signatures.into_iter().map(|signature| signature.into()).collect()
}

/// Calls `Transaction::encode` of `solana_transaction_status` for the binary
/// encoding.
///
/// Trusted: the text depends on the transaction alone, and the binary encoding
/// is always of the legacy form. The call panics where a list of the transaction
/// cannot be counted in the wire format.
#[verifier::external_body]
fn encode_binary(transaction: &Transaction) -> (text: Option<String>)
    requires
        transaction.signatures@.len() <= LIST_MAX,
        serializable(transaction.message@),
    ensures
        text is Some,
        text->0@ == binary_encoding(transaction@),
{
    let (m, signatures) = (&transaction.message, &transaction.signatures);
    let compiled = m.instructions.iter().map(|c| {
        SdkCompiled::new_from_raw_parts(c.program_id_index, c.data.clone(), c.accounts.clone())
    });
    let message = SdkMessage::new_with_compiled_instructions(
        m.num_required_signatures, m.num_readonly_signed_accounts, m.num_readonly_unsigned_accounts,
        m.account_keys.iter().map(|key| (*key).into()).collect(),
        SdkHash::new_from_array(transaction.recent_blockhash), compiled.collect());
    let signatures = signatures.iter().map(|signature| (*signature).into()).collect();
    match (SdkTransaction { signatures, message }).encode(UiTransactionEncoding::Binary) {
        EncodedTransaction::LegacyBinary(text) => Some(text),
        _ => None,
    }
}

/// Displays a `Signature` of `solana_sdk`.
///
/// Trusted: the text depends on the signature alone.
#[verifier::external_body]
fn display_signature(signature: &Signature) -> (text: String)
    ensures
        text@ == signature_text(signature@),
{
    solana_sdk::signature::Signature::from(*signature).to_string()
}

/// The text of a signature.
pub fn signature_to_text(signature: &Signature) -> (text: String)
    ensures
        text@ == signature_text(signature@),
{
    display_signature(signature)
}

/// A keypair that signs.
pub struct Keypair {
    bytes: [u8; 64],
    pubkey: Pubkey,
}

impl View for Keypair {
    type V = Seq<u8>;

    closed spec fn view(&self) -> Seq<u8> {
        self.bytes@
    }
}

/// The address of a keypair: its last 32 bytes.
pub open spec fn address_of(keypair: Seq<u8>) -> Seq<u8> {
    keypair.subrange(32, 64)
}

impl Keypair {
    #[verifier::type_invariant]
    spec fn well_formed(self) -> bool {
        &&& keypair_is_valid(self.bytes@)
        &&& self.pubkey@ == address_of(self.bytes@)
    }

    /// The keypair with the given bytes: the secret half, then the address.
    pub fn from_bytes(bytes: &[u8; 64]) -> (keypair: Option<Keypair>)
        ensures
            keypair is Some == keypair_is_valid(bytes@),
            keypair matches Some(k) ==> k@ == bytes@,
    {
        match keypair_address(bytes) {
            Some(pubkey) => Some(Keypair { bytes: *bytes, pubkey }),
            None => None,
        }
    }

    /// The address of the keypair.
    pub fn pubkey(&self) -> (pubkey: Pubkey)
        ensures
            pubkey@ == address_of(self@),
            pubkey@ == self@.subrange(32, 64),
    {
        proof {
            use_type_invariant(self);
        }
        self.pubkey
    }
}

/// The instructions as one message that the keypair of `payer` can sign, before
/// its block is known.
pub fn compile(ixs: Vec<Instruction>, payer: Pubkey) -> (message: Message)
    requires
        signable(instruction_views(ixs@), payer@),
    ensures
        message@ == compiled_message(instruction_views(ixs@), payer@),
        lists_accounts(message@, instruction_views(ixs@), payer@),
        calls_instructions(message@, instruction_views(ixs@)),
        serializable(message@),
{
    let ghost views = instruction_views(ixs@);
    let message: Message = new_with_payer(ixs, payer);
    proof {
        let keys = message@.account_keys;
        keys.unique_seq_to_set();
        assert forall|i: int| 0 <= i < message@.instructions.len() implies {
            &&& (#[trigger] message@.instructions[i]).accounts.len() <= LIST_MAX
            &&& message@.instructions[i].data.len() <= LIST_MAX
        } by {
            assert(views[i].accounts.len() <= LIST_MAX);
        }
    }
    message
}

/// The transaction that results from signing `message` for a block.
pub open spec fn signed(
    message: MessageView,
    keypair: Seq<u8>,
    blockhash: Seq<u8>,
) -> TransactionView {
    TransactionView {
        signatures: seq![message_signature(keypair, message, blockhash)],
        recent_blockhash: blockhash,
        message,
    }
}

/// Signs a message for the given block.
pub fn sign_message(message: Message, signer: &Keypair, blockhash: &Blockhash) -> (transaction:
    Transaction)
    requires
        message.num_required_signatures == 1,
        message.account_keys@.len() > 0,
        message.account_keys@[0]@ == address_of(signer@),
        serializable(message@),
    ensures
        transaction@ == signed(message@, signer@, blockhash@),
        transaction.message == message,
        transaction.recent_blockhash@ == blockhash@,
        transaction.signatures@.len() == 1,
        transaction.signatures@[0]@ == message_signature(signer@, message@, blockhash@),
{
    proof {
        use_type_invariant(signer);
    }
    let signatures: Vec<Signature> = sign(&message, &signer.bytes, blockhash);
    let transaction = Transaction { signatures, recent_blockhash: *blockhash, message };
    assert(transaction@ =~= signed(message@, signer@, blockhash@));
    transaction
}

impl Transaction {
    /// The transaction as text, in the encoding that a bundle takes.
    pub fn encode(&self) -> (text: String)
        requires
            self.signatures@.len() <= LIST_MAX,
            serializable(self.message@),
        ensures
            text@ == binary_encoding(self@),
    {
        match encode_binary(self) {
            Some(text) => text,
            None => String::new(),
        }
    }
}

/// A signed transaction carries the message as it is, for the block that it was
/// signed for, under one signature: that of the keypair on this message and block.
pub proof fn a_signature_is_for_its_message_and_block(
    message: MessageView,
    keypair: Seq<u8>,
    blockhash: Seq<u8>,
)
    ensures
        signed(message, keypair, blockhash).message == message,
        signed(message, keypair, blockhash).recent_blockhash == blockhash,
        signed(message, keypair, blockhash).signatures.len() == 1,
        signed(message, keypair, blockhash).signatures[0] == message_signature(
            keypair,
            message,
            blockhash,
        ),
{
}

/// The address of a keypair is its last 32 bytes, in order.
pub proof fn an_address_is_the_last_half(keypair: Seq<u8>, i: int)
    requires
        keypair.len() == 64,
        0 <= i < 32,
    ensures
        address_of(keypair).len() == 32,
        address_of(keypair)[i] == keypair[i + 32],
{
}

/// A message that calls a list of instructions calls each of them in its place, with
/// all of its data and on as many accounts; with no more than 256 accounts in all,
/// on the very accounts, by the very program.
pub proof fn each_instruction_is_called_in_its_place(
    message: MessageView,
    ixs: Seq<InstructionView>,
    i: int,
)
    requires
        calls_instructions(message, ixs),
        0 <= i < ixs.len(),
    ensures
        message.instructions.len() == ixs.len(),
        message.instructions[i].data == ixs[i].data,
        message.instructions[i].accounts.len() == ixs[i].accounts.len(),
        message.account_keys.len() <= 256 ==> {
            &&& message.account_keys[message.instructions[i].program_id_index as int]
                == ixs[i].program_id
            &&& forall|j: int|
                0 <= j < ixs[i].accounts.len()
                    ==> message.account_keys[#[trigger] message.instructions[i].accounts[j] as int]
                    == ixs[i].accounts[j].pubkey
        },
{
    if message.account_keys.len() <= 256 {
        assert(stands_for(message.instructions[i], message.account_keys, ixs[i]));
    }
}

/// What is stated of a transaction speaks of all that it holds.
pub proof fn a_transaction_is_seen_whole(transaction: Transaction)
    ensures
        ({
            let message = transaction.message;
            let seen = transaction@.message;
            &&& transaction@.recent_blockhash == transaction.recent_blockhash@
            &&& transaction@.signatures.len() == transaction.signatures@.len()
            &&& forall|i: int|
                0 <= i < transaction.signatures@.len() ==> #[trigger] transaction@.signatures[i]
                    == transaction.signatures@[i]@
            &&& seen == message@
            &&& seen.num_required_signatures == message.num_required_signatures
            &&& seen.num_readonly_signed_accounts == message.num_readonly_signed_accounts
            &&& seen.num_readonly_unsigned_accounts == message.num_readonly_unsigned_accounts
            &&& seen.account_keys.len() == message.account_keys@.len()
            &&& forall|i: int|
                0 <= i < message.account_keys@.len() ==> #[trigger] seen.account_keys[i]
                    == message.account_keys@[i]@
            &&& seen.instructions.len() == message.instructions@.len()
            &&& forall|i: int|
                0 <= i < message.instructions@.len() ==> {
                    let call = message.instructions@[i];
                    &&& (#[trigger] seen.instructions[i]).program_id_index == call.program_id_index
                    &&& seen.instructions[i].accounts == call.accounts@
                    &&& seen.instructions[i].data == call.data@
                }
        }),
{
}

} // verus!
