//! Instructions of a transaction, and the ones that this crate adds on its own
//! account: the compute budget and the tip to a block engine.

use rand::Rng;
use solana_sdk::compute_budget::ComputeBudgetInstruction;
use vstd::prelude::*;

verus! {

/// The address of an account, as its 32 bytes.
pub type Pubkey = [u8; 32];

/// An account that an instruction reads or writes.
#[derive(Clone, Copy, Debug)]
pub struct AccountMeta {
    pub pubkey: Pubkey,
    pub is_signer: bool,
    pub is_writable: bool,
}

/// A call of a program: the program, its accounts and its input.
#[derive(Debug)]
pub struct Instruction {
    pub program_id: Pubkey,
    pub accounts: Vec<AccountMeta>,
    pub data: Vec<u8>,
}

/// How many compute units a transaction asks for.
#[derive(Clone, Copy, Debug)]
pub enum ComputeBudget {
    Dynamic,
    Fixed(u32),
}

pub struct AccountMetaView {
    pub pubkey: Seq<u8>,
    pub is_signer: bool,
    pub is_writable: bool,
}

#[verifier::ext_equal]
pub struct InstructionView {
    pub program_id: Seq<u8>,
    pub accounts: Seq<AccountMetaView>,
    pub data: Seq<u8>,
}

impl View for AccountMeta {
    type V = AccountMetaView;

    open spec fn view(&self) -> AccountMetaView {
        AccountMetaView {
            pubkey: self.pubkey@,
            is_signer: self.is_signer,
            is_writable: self.is_writable,
        }
    }
}

impl View for Instruction {
    type V = InstructionView;

    open spec fn view(&self) -> InstructionView {
        InstructionView {
            program_id: self.program_id@,
            accounts: self.accounts@.map_values(|meta: AccountMeta| meta@),
            data: self.data@,
        }
    }
}

/// The views of a list of instructions.
pub open spec fn instruction_views(list: Seq<Instruction>) -> Seq<InstructionView> {
    list.map_values(|ix: Instruction| ix@)
}

impl Clone for Instruction {
    fn clone(&self) -> (copy: Self)
        ensures
            copy@ == self@,
    {
        let mut accounts: Vec<AccountMeta> = Vec::new();
        let mut i: usize = 0;
        while i < self.accounts.len()
            invariant
                i <= self.accounts@.len(),
                accounts@ == self.accounts@.take(i as int),
            decreases self.accounts@.len() - i,
        {
            accounts.push(self.accounts[i]);
            i += 1;
        }
        let mut data: Vec<u8> = Vec::new();
        let mut j: usize = 0;
        while j < self.data.len()
            invariant
                j <= self.data@.len(),
                data@ == self.data@.take(j as int),
            decreases self.data@.len() - j,
        {
            data.push(self.data[j]);
            j += 1;
        }
        assert(accounts@ =~= self.accounts@);
        assert(data@ =~= self.data@);
        Instruction { program_id: self.program_id, accounts, data }
    }
}

/// The program that sets the compute budget of a transaction.
pub const COMPUTE_BUDGET_PROGRAM: Pubkey = [
    0x03, 0x06, 0x46, 0x6f, 0xe5, 0x21, 0x17, 0x32, 0xff, 0xec, 0xad, 0xba,
    0x72, 0xc3, 0x9b, 0xe7, 0xbc, 0x8c, 0xe5, 0xbb, 0xc5, 0xf7, 0x12, 0x6b,
    0x2c, 0x43, 0x9b, 0x3a, 0x40, 0x00, 0x00, 0x00,
];

/// The program that moves lamports between accounts.
pub const SYSTEM_PROGRAM: Pubkey = [
    0x00, 0x00, 0x00, 0x00, 0x00, 0x00, 0x00, 0x00, 0x00, 0x00, 0x00, 0x00,
    0x00, 0x00, 0x00, 0x00, 0x00, 0x00, 0x00, 0x00, 0x00, 0x00, 0x00, 0x00,
    0x00, 0x00, 0x00, 0x00, 0x00, 0x00, 0x00, 0x00,
];

/// Compute units that a transaction asks for when no fixed number is given.
pub const DYNAMIC_COMPUTE_UNITS: u32 = 1_400_000;

/// Accounts of the block engine on the main network that take tips.
pub const JITO_RECIPIENTS: [Pubkey; 8] = [
    // 96gYZGLnJYVFmbjzopPSU6QiEV5fGqZNyN9nmNhvrZU5
    [
        0x78, 0x52, 0x1c, 0xb1, 0x79, 0xce, 0xbb, 0x85, 0x89, 0xb5, 0x56, 0xa2,
        0xd5, 0xec, 0x94, 0xd2, 0x49, 0x86, 0x82, 0xfd, 0xf9, 0xbb, 0x2a, 0xf5,
        0xad, 0x64, 0xe4, 0x91, 0xcc, 0x41, 0x53, 0xda,
    ],
    // HFqU5x63VTqvQss8hp11i4wVV8bD44PvwucfZ2bU7gRe
    [
        0xf1, 0x87, 0xec, 0x87, 0xd1, 0xf7, 0x45, 0xcb, 0x3a, 0x03, 0x38, 0x4a,
        0x26, 0xa6, 0x9e, 0xda, 0x0c, 0xa2, 0xd1, 0xaa, 0x0f, 0x41, 0xe4, 0x24,
        0x16, 0x37, 0x7e, 0x91, 0xff, 0x5b, 0x5d, 0x31,
    ],
    // Cw8CFyM9FkoMi7K7Crf6HNQqf4uEMzpKw6QNghXLvLkY
    [
        0xb1, 0x4e, 0x0d, 0xe5, 0x5e, 0x9f, 0xba, 0x86, 0x39, 0x6e, 0xbf, 0xd5,
        0x48, 0xcf, 0xf8, 0xc9, 0x20, 0x11, 0xea, 0xc7, 0xb7, 0x5b, 0xaa, 0x9b,
        0x2d, 0x9c, 0x6a, 0x86, 0xf5, 0xa1, 0x71, 0x41,
    ],
    // ADaUMid9yfUytqMBgopwjb2DTLSokTSzL1zt6iGPaS49
    [
        0x88, 0xf1, 0xff, 0xa3, 0xa2, 0xdf, 0xe6, 0x17, 0xbd, 0xc4, 0xe3, 0x57,
        0x32, 0x51, 0xa3, 0x22, 0xe3, 0xfc, 0xae, 0x81, 0xe5, 0xa4, 0x57, 0x39,
        0x0e, 0x64, 0x75, 0x1c, 0x00, 0xa4, 0x65, 0xe2,
    ],
    // DfXygSm4jCyNCybVYYK6DwvWqjKee8pbDmJGcLWNDXjh
    [
        0xbc, 0x2b, 0x57, 0x06, 0x5e, 0xf1, 0xdd, 0x66, 0x54, 0x30, 0xbe, 0x60,
        0x6b, 0xa6, 0x59, 0x6c, 0x02, 0x95, 0x30, 0x1b, 0xad, 0xef, 0x8b, 0x5a,
        0xfc, 0x41, 0x01, 0x41, 0x50, 0xf4, 0x12, 0x74,
    ],
    // ADuUkR4vqLUMWXxW9gh6D6L8pMSawimctcNZ5pGwDcEt
    [
        0x89, 0x07, 0x7d, 0x55, 0xa5, 0xbb, 0x13, 0x30, 0x76, 0x3e, 0xb7, 0x67,
        0xf5, 0x5e, 0xc0, 0x77, 0xb4, 0x1a, 0x0d, 0x07, 0x5f, 0x7d, 0xe1, 0xd7,
        0x3f, 0xba, 0xca, 0x3c, 0x63, 0xd5, 0x54, 0x71,
    ],
    // DttWaMuVvTiduZRnguLF7jNxTgiMBZ1hyAumKUiL2KRL
    [
        0xbf, 0x97, 0x1b, 0x59, 0x10, 0x8b, 0x5b, 0x85, 0xa0, 0x4f, 0xb0, 0x93,
        0xf1, 0xe2, 0x1b, 0x4e, 0x3f, 0xd4, 0xc4, 0xc8, 0xf4, 0x87, 0xdd, 0x09,
        0xb9, 0x57, 0x52, 0x76, 0x9f, 0x0d, 0xd8, 0xc3,
    ],
    // 3AVi9Tg9Uo68tJfuvoKvqKNWKkC5wPdSSdeBnizKZ6jT
    [
        0x20, 0x26, 0x10, 0x1e, 0xc2, 0x03, 0x28, 0x96, 0x4a, 0x32, 0xab, 0xab,
        0x13, 0x6c, 0x54, 0x05, 0xb9, 0x1f, 0x3a, 0xe3, 0x8e, 0xe4, 0xf6, 0x4c,
        0xb6, 0xbd, 0xe8, 0x79, 0xb8, 0x68, 0x38, 0xd2,
    ],
];

/// The `len` low bytes of `value`, least significant first.
pub open spec fn little_endian(value: nat, len: nat) -> Seq<u8>
    decreases len,
{
    if len == 0 {
        Seq::empty()
    } else {
        seq![(value % 256) as u8] + little_endian(value / 256, (len - 1) as nat)
    }
}

/// There are as many bytes as are asked for.
pub proof fn lemma_little_endian_len(value: nat, len: nat)
    ensures
        little_endian(value, len).len() == len,
    decreases len,
{
    if len > 0 {
        lemma_little_endian_len(value / 256, (len - 1) as nat);
    }
}

/// The number that eight bytes of `data` hold, least significant first.
pub open spec fn eight_bytes(data: Seq<u8>, at: int) -> int {
    data[at] + 0x100 * data[at + 1] + 0x1_0000 * data[at + 2] + 0x100_0000 * data[at + 3]
        + 0x1_0000_0000 * data[at + 4] + 0x100_0000_0000 * data[at + 5] + 0x1_0000_0000_0000
        * data[at + 6] + 0x100_0000_0000_0000 * data[at + 7]
}

/// One byte of a number, and the bytes after it.
proof fn lemma_little_endian_step(value: nat, len: nat)
    requires
        len > 0,
    ensures
        little_endian(value, len).len() == len,
        value == 256 * (value / 256) + little_endian(value, len)[0],
        forall|i: int|
            1 <= i < len ==> #[trigger] little_endian(value, len)[i] == little_endian(
                value / 256,
                (len - 1) as nat,
            )[i - 1],
{
    lemma_little_endian_len(value, len);
    lemma_little_endian_len(value / 256, (len - 1) as nat);
}

/// Four bytes hold a number of 32 bits, eight bytes one of 64 bits.
proof fn lemma_little_endian_value(value: nat)
    ensures
        value <= u32::MAX ==> {
            let bytes = little_endian(value, 4);
            value == bytes[0] + 0x100 * bytes[1] + 0x1_0000 * bytes[2] + 0x100_0000 * bytes[3]
        },
        value <= u64::MAX ==> value == eight_bytes(little_endian(value, 8), 0),
{
    let v1 = value / 256;
    let v2 = v1 / 256;
    let v3 = v2 / 256;
    let v4 = v3 / 256;
    let v5 = v4 / 256;
    let v6 = v5 / 256;
    let v7 = v6 / 256;
    lemma_little_endian_step(value, 4);
    lemma_little_endian_step(v1, 3);
    lemma_little_endian_step(v2, 2);
    lemma_little_endian_step(v3, 1);
    lemma_little_endian_step(value, 8);
    lemma_little_endian_step(v1, 7);
    lemma_little_endian_step(v2, 6);
    lemma_little_endian_step(v3, 5);
    lemma_little_endian_step(v4, 4);
    lemma_little_endian_step(v5, 3);
    lemma_little_endian_step(v6, 2);
    lemma_little_endian_step(v7, 1);
    let a = little_endian(value, 4);
    assert(a[1] == little_endian(v1, 3)[0]);
    assert(a[2] == little_endian(v1, 3)[1] == little_endian(v2, 2)[0]);
    assert(a[3] == little_endian(v1, 3)[2] == little_endian(v2, 2)[1] == little_endian(v3, 1)[0]);
    let b = little_endian(value, 8);
    let b1 = little_endian(v1, 7);
    let b2 = little_endian(v2, 6);
    let b3 = little_endian(v3, 5);
    let b4 = little_endian(v4, 4);
    let b5 = little_endian(v5, 3);
    let b6 = little_endian(v6, 2);
    assert(b[1] == b1[0]);
    assert(b[2] == b1[1] == b2[0]);
    assert(b[3] == b1[2] == b2[1] == b3[0]);
    assert(b[4] == b1[3] == b2[2] == b3[1] == b4[0]);
    assert(b[5] == b1[4] == b2[3] == b3[2] == b4[1] == b5[0]);
    assert(b[6] == b1[5] == b2[4] == b3[3] == b4[2] == b5[1] == b6[0]);
    assert(b[7] == b1[6] == b2[5] == b3[4] == b4[3] == b5[2] == b6[1] == little_endian(v7, 1)[0]);
}

/// The instruction on the limit holds the very number of units: the byte 2, then
/// four bytes whose value it is, least significant first.
pub proof fn a_limit_holds_its_units(units: u32)
    ensures
        ({
            let ix = unit_limit_instruction(units);
            &&& ix.program_id == COMPUTE_BUDGET_PROGRAM@
            &&& ix.accounts.len() == 0
            &&& ix.data.len() == 5
            &&& ix.data[0] == 2
            &&& ix.data[1] + 0x100 * ix.data[2] + 0x1_0000 * ix.data[3] + 0x100_0000 * ix.data[4]
                == units
        }),
{
    lemma_little_endian_len(units as nat, 4);
    lemma_little_endian_value(units as nat);
}

/// The instruction on the price holds the very price: the byte 3, then eight bytes
/// whose value it is, least significant first.
pub proof fn a_price_is_paid_in_full(micro_lamports: u64)
    ensures
        ({
            let ix = unit_price_instruction(micro_lamports);
            &&& ix.program_id == COMPUTE_BUDGET_PROGRAM@
            &&& ix.accounts.len() == 0
            &&& ix.data.len() == 9
            &&& ix.data[0] == 3
            &&& ix.data[1] + 0x100 * ix.data[2] + 0x1_0000 * ix.data[3] + 0x100_0000 * ix.data[4]
                + 0x1_0000_0000 * ix.data[5] + 0x100_0000_0000 * ix.data[6] + 0x1_0000_0000_0000
                * ix.data[7] + 0x100_0000_0000_0000 * ix.data[8] == micro_lamports
        }),
{
    lemma_little_endian_len(micro_lamports as nat, 8);
    lemma_little_endian_value(micro_lamports as nat);
}

/// A transfer moves the very amount from the sender, who signs, to the recipient,
/// who does not.
pub proof fn a_transfer_moves_its_amount(sender: Seq<u8>, recipient: Seq<u8>, lamports: u64)
    ensures
        ({
            let ix = transfer_instruction(sender, recipient, lamports);
            &&& ix.program_id.len() == 32
            &&& forall|i: int| 0 <= i < 32 ==> ix.program_id[i] == 0
            &&& ix.accounts.len() == 2
            &&& ix.accounts[0].pubkey == sender
            &&& ix.accounts[0].is_signer
            &&& ix.accounts[0].is_writable
            &&& ix.accounts[1].pubkey == recipient
            &&& !ix.accounts[1].is_signer
            &&& ix.accounts[1].is_writable
            &&& ix.data.len() == 12
            &&& ix.data[0] == 2 && ix.data[1] == 0 && ix.data[2] == 0 && ix.data[3] == 0
            &&& ix.data[4] + 0x100 * ix.data[5] + 0x1_0000 * ix.data[6] + 0x100_0000 * ix.data[7]
                + 0x1_0000_0000 * ix.data[8] + 0x100_0000_0000 * ix.data[9] + 0x1_0000_0000_0000
                * ix.data[10] + 0x100_0000_0000_0000 * ix.data[11] == lamports
        }),
{
    lemma_little_endian_len(lamports as nat, 8);
    lemma_little_endian_value(lamports as nat);
}

/// What is stated of a list of instructions speaks of each of them, in its place.
pub proof fn instructions_are_seen_in_their_places(list: Seq<Instruction>, i: int)
    requires
        0 <= i < list.len(),
    ensures
        instruction_views(list).len() == list.len(),
        instruction_views(list)[i] == list[i]@,
{
}

/// The number that four bytes of `data` hold, least significant first.
pub open spec fn four_bytes(data: Seq<u8>, at: int) -> int {
    data[at] + 0x100 * data[at + 1] + 0x1_0000 * data[at + 2] + 0x100_0000 * data[at + 3]
}

/// What is stated of an instruction speaks of all that it holds.
pub proof fn an_instruction_is_seen_whole(ix: Instruction)
    ensures
        ix@.program_id == ix.program_id@,
        ix@.data == ix.data@,
        ix@.accounts.len() == ix.accounts@.len(),
        forall|j: int|
            0 <= j < ix.accounts@.len() ==> {
                &&& (#[trigger] ix@.accounts[j]).pubkey == ix.accounts@[j].pubkey@
                &&& ix@.accounts[j].is_signer == ix.accounts@[j].is_signer
                &&& ix@.accounts[j].is_writable == ix.accounts@[j].is_writable
            },
{
}

/// The instruction that limits a transaction to `units` compute units.
pub open spec fn unit_limit_instruction(units: u32) -> InstructionView {
    InstructionView {
        program_id: COMPUTE_BUDGET_PROGRAM@,
        accounts: Seq::empty(),
        data: seq![2u8] + little_endian(units as nat, 4),
    }
}

/// The instruction that pays `micro_lamports` for each compute unit.
pub open spec fn unit_price_instruction(micro_lamports: u64) -> InstructionView {
    InstructionView {
        program_id: COMPUTE_BUDGET_PROGRAM@,
        accounts: Seq::empty(),
        data: seq![3u8] + little_endian(micro_lamports as nat, 8),
    }
}

/// The instruction that moves `lamports` between two accounts; the sender signs.
pub open spec fn transfer_instruction(
    sender: Seq<u8>,
    recipient: Seq<u8>,
    lamports: u64,
) -> InstructionView {
    InstructionView {
        program_id: SYSTEM_PROGRAM@,
        accounts: seq![
            AccountMetaView { pubkey: sender, is_signer: true, is_writable: true },
            AccountMetaView { pubkey: recipient, is_signer: false, is_writable: true },
        ],
        data: seq![2u8, 0u8, 0u8, 0u8] + little_endian(lamports as nat, 8),
    }
}

/// Calls `ComputeBudgetInstruction::set_compute_unit_limit` of `solana_sdk`.
///
/// Trusted: the instruction names the compute budget program and no account; its
/// data is the number 2 of the variant in one byte, then the limit in four bytes,
/// least significant first.
#[verifier::external_body]
pub(crate) fn set_compute_unit_limit(units: u32) -> (ix: Instruction)
    ensures
        ix@ == unit_limit_instruction(units),
{
    let ix = ComputeBudgetInstruction::set_compute_unit_limit(units);
    let meta = |a: &solana_sdk::instruction::AccountMeta| AccountMeta {
        pubkey: a.pubkey.to_bytes(),
        is_signer: a.is_signer,
        is_writable: a.is_writable,
    };
    Instruction {
        program_id: ix.program_id.to_bytes(),
        accounts: ix.accounts.iter().map(meta).collect(),
        data: ix.data,
    }
}

/// Calls `ComputeBudgetInstruction::set_compute_unit_price` of `solana_sdk`.
///
/// Trusted: the instruction names the compute budget program and no account; its
/// data is the number 3 of the variant in one byte, then the price in eight
/// bytes, least significant first.
#[verifier::external_body]
pub(crate) fn set_compute_unit_price(micro_lamports: u64) -> (ix: Instruction)
    ensures
        ix@ == unit_price_instruction(micro_lamports),
{
    let ix = ComputeBudgetInstruction::set_compute_unit_price(micro_lamports);
    let meta = |a: &solana_sdk::instruction::AccountMeta| AccountMeta {
        pubkey: a.pubkey.to_bytes(),
        is_signer: a.is_signer,
        is_writable: a.is_writable,
    };
    Instruction {
        program_id: ix.program_id.to_bytes(),
        accounts: ix.accounts.iter().map(meta).collect(),
        data: ix.data,
    }
}

/// Calls `solana_sdk::system_instruction::transfer`.
///
/// Trusted: the instruction names the system program, the sender as a writable
/// signer and the recipient as writable; its data is the number 2 of the variant
/// in four bytes, then the amount in eight bytes, each least significant first.
#[verifier::external_body]
fn transfer(sender: &Pubkey, recipient: &Pubkey, lamports: u64) -> (ix: Instruction)
    ensures
        ix@ == transfer_instruction(sender@, recipient@, lamports),
{
    let ix = solana_sdk::system_instruction::transfer(
        &(*sender).into(),
        &(*recipient).into(),
        lamports,
    );
    let meta = |a: &solana_sdk::instruction::AccountMeta| AccountMeta {
        pubkey: a.pubkey.to_bytes(),
        is_signer: a.is_signer,
        is_writable: a.is_writable,
    };
    let accounts = ix.accounts.iter().map(meta).collect();
    Instruction { program_id: ix.program_id.to_bytes(), accounts, data: ix.data }
}

/// Calls `gen_range` of `rand` on the generator of the thread.
///
/// Trusted: the number lies in the range. Which one it is rests on chance, so
/// nothing more is claimed. The call panics on an empty range.
#[verifier::external_body]
fn random_below(end: usize) -> (index: usize)
    requires
        end > 0,
    ensures
        index < end,
{
    rand::thread_rng().gen_range(0..end)
}

/// The tip of `value` lamports from `pubkey` to the given recipient.
pub fn bribe_ix(pubkey: &Pubkey, value: u64, recipient: usize) -> (ix: Instruction)
    requires
        recipient < JITO_RECIPIENTS@.len(),
    ensures
        ix@ == transfer_instruction(pubkey@, JITO_RECIPIENTS@[recipient as int]@, value),
        ix.accounts@.len() == 2,
        ix.accounts@[0].pubkey@ == pubkey@,
        ix.accounts@[0].is_signer,
        ix.accounts@[0].is_writable,
        ix.accounts@[1].pubkey@ == JITO_RECIPIENTS@[recipient as int]@,
        !ix.accounts@[1].is_signer,
        ix.accounts@[1].is_writable,
        ix.data@.len() == 12,
        eight_bytes(ix.data@, 4) == value,
{
    let ix: Instruction = transfer(pubkey, &JITO_RECIPIENTS[recipient], value);
    proof {
        a_transfer_moves_its_amount(pubkey@, JITO_RECIPIENTS@[recipient as int]@, value);
        assert(ix@.accounts.len() == 2);
        assert(ix@.accounts[0] == ix.accounts@[0]@);
        assert(ix@.accounts[1] == ix.accounts@[1]@);
    }
    ix
}

/// The tip of `value` lamports from `pubkey` to one of the recipients, drawn at
/// random.
pub fn build_bribe_ix(pubkey: &Pubkey, value: u64) -> (ix: Instruction)
    ensures
        exists|recipient: int|
            0 <= recipient < JITO_RECIPIENTS@.len() && ix@ == transfer_instruction(
                pubkey@,
                #[trigger] JITO_RECIPIENTS@[recipient]@,
                value,
            ),
{
    let recipient: usize = random_below(JITO_RECIPIENTS.len());
    bribe_ix(pubkey, value, recipient)
}

} // verus!
