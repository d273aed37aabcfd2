//! The miner: its keypair, its priority fee, and the instructions that it puts
//! around those of its callers.

use crate::double::{
    lemma_round_whole_exact, lemma_round_whole_monotone, lemma_truncated_quotient_exact,
    lemma_truncated_quotient_monotone, round_whole, round_whole_is_nearest, rounded_whole,
    rounding_changes_little, truncated_quotient, truncation_changes_little,
    whole_part_of_quotient, SIGNIFICAND_END,
};
use crate::instruction::{
    a_limit_holds_its_units, a_price_is_paid_in_full, eight_bytes, instruction_views,
    set_compute_unit_limit, set_compute_unit_price, unit_limit_instruction,
    unit_price_instruction, ComputeBudget, Instruction, InstructionView, COMPUTE_BUDGET_PROGRAM,
    DYNAMIC_COMPUTE_UNITS,
};
use crate::text::{console_line, decimal, line_view, number_text, Badge, Line, LineView, Outlet};
use crate::transaction::Keypair;
use vstd::arithmetic::power2::pow2;
use vstd::prelude::*;
use vstd::string::StringExecFns;

verus! {

/// Who sends transactions, and at which price.
pub struct Miner {
    /// What the miner pays for priority, before any adjustment.
    pub priority_fee: u64,
    pub signer: Keypair,
}

/// Difficulty up to which the fee stays as it is.
pub const BASE_DIFFICULTY: u32 = 20;

/// A twentieth of the fee for each point of difficulty above the base, computed in
/// double precision and cut to a whole number of 64 bits.
pub open spec fn surcharge(fee: nat, difficult: nat) -> nat {
    let excess = (difficult - BASE_DIFFICULTY) as nat;
    let product = round_whole(round_whole(fee, 1) * excess, 1);
    let whole = truncated_quotient(product, 20);
    if whole <= u64::MAX {
        whole
    } else {
        u64::MAX as nat
    }
}

/// The fee for a hash of the given difficulty: four surcharges on top, and three
/// times the fee at most.
pub open spec fn adjusted_fee(fee: nat, difficult: nat) -> nat {
    if difficult <= BASE_DIFFICULTY {
        fee
    } else if fee + 4 * surcharge(fee, difficult) > 3 * fee {
        3 * fee
    } else {
        fee + 4 * surcharge(fee, difficult)
    }
}

/// The adjustment stays inside 64 bits at each step.
pub open spec fn fee_fits(fee: nat, difficult: nat) -> bool {
    difficult > BASE_DIFFICULTY ==> {
        &&& fee + 4 * surcharge(fee, difficult) <= u64::MAX
        &&& 3 * fee <= u64::MAX
    }
}

/// The surcharge of a fee at a difficulty above the base.
fn compute_surcharge(fee: u64, difficult: u32) -> (s: u64)
    requires
        difficult > BASE_DIFFICULTY,
    ensures
        s == surcharge(fee as nat, difficult as nat),
{
    let excess: u128 = (difficult - BASE_DIFFICULTY) as u128;
    let fee_double: u128 = rounded_whole(fee as u128, 1);
    assert(fee_double * excess < 0x4_0000_0000_0000_0000_0000_0000) by (nonlinear_arith)
        requires
            fee_double <= 0x2_0000_0000_0000_0000,
            excess < 0x1_0000_0000,
    ;
    let product: u128 = rounded_whole(fee_double * excess, 1);
    let whole: u128 = whole_part_of_quotient(product, 20);
    if whole <= u64::MAX as u128 {
        whole as u64
    } else {
        u64::MAX
    }
}

impl Miner {
    /// The fee for a hash of the given difficulty.
    pub fn adjust_fee(&self, difficult: u32) -> (fee: u64)
        requires
            fee_fits(self.priority_fee as nat, difficult as nat),
        ensures
            fee == adjusted_fee(self.priority_fee as nat, difficult as nat),
            difficult <= 20 ==> fee == self.priority_fee,
            self.priority_fee <= fee <= 3 * self.priority_fee,
    {
        let mut extra_fee: u64 = self.priority_fee;
        if difficult > BASE_DIFFICULTY {
            extra_fee = extra_fee + compute_surcharge(extra_fee, difficult) * 4;
            if extra_fee > 3 * self.priority_fee {
                extra_fee = 3 * self.priority_fee;
            }
        }
        extra_fee
    }

    /// The fee for a hash of the given difficulty, unless its computation leaves
    /// 64 bits.
    pub fn checked_adjust_fee(&self, difficult: u32) -> (fee: Option<u64>)
        ensures
            fee is Some == fee_fits(self.priority_fee as nat, difficult as nat),
            fee matches Some(f) ==> f == adjusted_fee(self.priority_fee as nat, difficult as nat),
            difficult <= 20 ==> fee == Some(self.priority_fee),
            self.priority_fee <= 20_000_000_000 ==> fee is Some,
    {
        proof {
            if self.priority_fee <= 20_000_000_000 {
                ordinary_fee_fits(self.priority_fee as nat, difficult as nat);
            }
        }
        if difficult > BASE_DIFFICULTY {
            let extra: u128 = compute_surcharge(self.priority_fee, difficult) as u128 * 4;
            if self.priority_fee as u128 + extra > u64::MAX as u128 || self.priority_fee as u128 * 3
                > u64::MAX as u128 {
                return None;
            }
        }
        Some(self.adjust_fee(difficult))
    }
}

/// The line that tells of a fee that the difficulty may have raised.
pub open spec fn fee_line(fee: Option<u64>) -> Option<LineView> {
    match fee {
        Some(f) => Some(console_line("change extra fee to "@ + decimal(f as nat))),
        None => None,
    }
}

/// The line that tells of a fee that the difficulty may have raised.
pub fn report_fee(fee: Option<u64>) -> (line: Option<Line>)
    ensures
        line_view(line) == fee_line(fee),
{
    match fee {
        Some(f) => {
            let mut text: String = String::from_str("change extra fee to ");
            text.append(number_text(f).as_str());
            Some(Line { outlet: Outlet::Console, badge: Badge::Plain, text })
        },
        None => None,
    }
}

/// What is shown of `fee`, the fee at the given difficulty: nothing up to the base
/// difficulty.
pub fn announce_fee(fee: u64, difficult: u32) -> (line: Option<Line>)
    ensures
        line_view(line) == fee_line(
            if difficult > BASE_DIFFICULTY {
                Some(fee)
            } else {
                None
            },
        ),
        line is Some <==> difficult > 20,
        line matches Some(shown) ==> shown.text@ == "change extra fee to "@ + decimal(fee as nat),
{
    if difficult > BASE_DIFFICULTY {
        report_fee(Some(fee))
    } else {
        report_fee(None)
    }
}

/// The adjusted fee is never below the fee, and never above three times it.
pub proof fn adjusted_fee_is_bounded(fee: nat, difficult: nat)
    ensures
        fee <= adjusted_fee(fee, difficult) <= 3 * fee,
{
}

/// A harder hash never lowers the fee.
pub proof fn adjusted_fee_is_monotone(fee: nat, easier: nat, harder: nat)
    requires
        easier <= harder,
    ensures
        adjusted_fee(fee, easier) <= adjusted_fee(fee, harder),
{
    if easier > BASE_DIFFICULTY {
        let base = round_whole(fee, 1);
        let a = (easier - BASE_DIFFICULTY) as nat;
        let b = (harder - BASE_DIFFICULTY) as nat;
        assert(base * a <= base * b) by (nonlinear_arith)
            requires
                a <= b,
        ;
        lemma_round_whole_monotone(base * a, base * b, 1);
        lemma_truncated_quotient_monotone(round_whole(base * a, 1), round_whole(base * b, 1), 20);
    }
}

/// A higher priority fee never lowers the fee.
pub proof fn adjusted_fee_grows_with_the_fee(lower: nat, higher: nat, difficult: nat)
    requires
        lower <= higher,
    ensures
        adjusted_fee(lower, difficult) <= adjusted_fee(higher, difficult),
{
    if difficult > BASE_DIFFICULTY {
        lemma_surcharge_monotone(lower, higher, difficult);
    }
}

proof fn lemma_surcharge_monotone(lower: nat, higher: nat, difficult: nat)
    requires
        lower <= higher,
        difficult > BASE_DIFFICULTY,
    ensures
        surcharge(lower, difficult) <= surcharge(higher, difficult),
{
    let excess = (difficult - BASE_DIFFICULTY) as nat;
    lemma_round_whole_monotone(lower, higher, 1);
    let a = round_whole(lower, 1);
    let b = round_whole(higher, 1);
    assert(a * excess <= b * excess) by (nonlinear_arith)
        requires
            a <= b,
    ;
    lemma_round_whole_monotone(a * excess, b * excess, 1);
    lemma_truncated_quotient_monotone(
        round_whole(a * excess, 1),
        round_whole(b * excess, 1),
        20,
    );
}

/// A priority fee that fits at every difficulty: 20 SOL, in lamports.
pub const ORDINARY_FEE_MAX: u64 = 20_000_000_000;

/// The adjustment of an ordinary fee stays inside 64 bits, whatever the difficulty.
pub proof fn ordinary_fee_fits(fee: nat, difficult: nat)
    requires
        fee <= ORDINARY_FEE_MAX,
        difficult <= u32::MAX,
    ensures
        fee_fits(fee, difficult),
{
    if difficult > BASE_DIFFICULTY {
        let most: nat = ORDINARY_FEE_MAX as nat;
        let excess = (difficult - BASE_DIFFICULTY) as nat;
        let product: nat = 0x1_0000_0000 * most;
        assert(pow2(32) == 0x1_0000_0000) by {
            vstd::arithmetic::power2::lemma2_to64();
        }
        assert(fee * excess <= product) by (nonlinear_arith)
            requires
                fee <= most,
                excess <= 0x1_0000_0000,
                product == 0x1_0000_0000 * most,
        ;
        lemma_round_whole_exact(fee);
        lemma_round_whole_monotone(fee * excess, product, 1);
        // The largest product is a double, and so is a twentieth of it.
        round_whole_is_nearest(product, 1, most, 32);
        assert(round_whole(product, 1) == product);
        lemma_truncated_quotient_monotone(round_whole(fee * excess, 1), product, 20);
        round_whole_is_nearest(product, 20, 1_000_000_000, 32);
        assert(truncated_quotient(product, 20) == 1_000_000_000 * 0x1_0000_0000);
    }
}

/// While the fee times the excess difficulty is below two to the power of 53, no
/// rounding shows: the surcharge is the whole part of a twentieth of that product.
pub proof fn ordinary_surcharge_is_exact(fee: nat, difficult: nat)
    requires
        difficult > BASE_DIFFICULTY,
        fee * (difficult - BASE_DIFFICULTY) < SIGNIFICAND_END,
    ensures
        surcharge(fee, difficult) == fee * (difficult - BASE_DIFFICULTY) / 20,
{
    let excess = (difficult - BASE_DIFFICULTY) as nat;
    assert(fee <= fee * excess) by (nonlinear_arith)
        requires
            excess >= 1,
    ;
    lemma_round_whole_exact(fee);
    lemma_round_whole_exact(fee * excess);
    lemma_truncated_quotient_exact(fee * excess);
}

/// A surcharge is a twentieth of the fee for each point above 20, whole, but for one
/// part in two to the power of 50, unless it is the largest number of 64 bits.
pub proof fn a_surcharge_is_a_twentieth_for_each_point(fee: nat, difficult: nat)
    requires
        difficult > 20,
    ensures
        0x4_0000_0000_0000 * (20 * surcharge(fee, difficult)) <= 0x4_0000_0000_0001 * (fee * (
        difficult - 20)),
        surcharge(fee, difficult) == u64::MAX || 0x4_0000_0000_0000 * (20 * (surcharge(
            fee,
            difficult,
        ) + 1)) >= 0x3_ffff_ffff_ffff * (fee * (difficult - 20)),
{
    let excess = (difficult - 20) as nat;
    let base = round_whole(fee, 1);
    let exact = fee * excess;
    let near = base * excess;
    rounding_changes_little(fee);
    assert(0x20_0000_0000_0000 * near <= 0x20_0000_0000_0001 * exact && 0x20_0000_0000_0000 * near
        >= 0x1f_ffff_ffff_ffff * exact) by (nonlinear_arith)
        requires
            0x20_0000_0000_0000 * base <= 0x20_0000_0000_0001 * fee,
            0x20_0000_0000_0000 * base >= 0x1f_ffff_ffff_ffff * fee,
            near == base * excess,
            exact == fee * excess,
    ;
    rounding_changes_little(near);
    truncation_changes_little(round_whole(near, 1), 20);
}

/// A surcharge takes three roundings to double precision, of the fee, of its product
/// with the points above 20 and of a twentieth of that; then the whole part is taken,
/// as far as 64 bits hold it.
pub proof fn a_surcharge_is_rounded_three_times(fee: nat, difficult: nat)
    requires
        difficult > 20,
    ensures
        ({
            let points = (difficult - 20) as nat;
            let whole = truncated_quotient(round_whole(round_whole(fee, 1) * points, 1), 20);
            surcharge(fee, difficult) == if whole <= 0xffff_ffff_ffff_ffff {
                whole
            } else {
                0xffff_ffff_ffff_ffff
            }
        }),
{
}

/// What the difficulty does to a fee. Up to 20 points, nothing. Above, the fee grows
/// by a fifth of itself for each point, by a multiple of four and but for one part in
/// two to the power of 50, until it is three times the fee, where it stays.
pub proof fn the_fee_follows_the_difficulty(fee: nat, difficult: nat)
    requires
        fee <= u64::MAX,
    ensures
        difficult <= 20 ==> adjusted_fee(fee, difficult) == fee,
        difficult > 20 ==> {
            let raised = fee + 4 * surcharge(fee, difficult);
            adjusted_fee(fee, difficult) == if raised <= 3 * fee {
                raised
            } else {
                3 * fee
            }
        },
        difficult > 20 ==> {
            let product = fee * (difficult - 20);
            let more = adjusted_fee(fee, difficult) - fee;
            &&& 0 <= more <= 2 * fee
            &&& 0x4_0000_0000_0000 * (5 * more) <= 0x4_0000_0000_0001 * product
            &&& more == 2 * fee || {
                &&& more % 4 == 0
                &&& 0x4_0000_0000_0000 * (5 * more + 20) >= 0x3_ffff_ffff_ffff * product
            }
        },
{
    if difficult > 20 {
        a_surcharge_is_a_twentieth_for_each_point(fee, difficult);
    }
}

/// While the fee times the points above 20 is below two to the power of 53, the fee
/// is exact: four times the whole part of a twentieth of that product on top, and
/// three times the fee at most.
pub proof fn an_ordinary_fee_is_exact(fee: nat, difficult: nat)
    requires
        difficult > 20,
        fee * (difficult - 20) < 0x20_0000_0000_0000,
    ensures
        ({
            let raised = fee + 4 * (fee * (difficult - 20) / 20);
            adjusted_fee(fee, difficult) == if raised <= 3 * fee {
                raised
            } else {
                3 * fee as int
            }
        }),
{
    ordinary_surcharge_is_exact(fee, difficult);
}

/// A fee fits if three times it does, and a fifth of it on top for each point above
/// 20 does with one part in two to the power of 50 to spare. Up to 20 points, every
/// fee fits.
pub proof fn a_fee_with_room_fits(fee: nat, difficult: nat)
    requires
        difficult <= 20 || {
            &&& 3 * fee <= u64::MAX
            &&& 0x4_0000_0000_0001 * (fee * (difficult - 20)) <= 0x4_0000_0000_0000 * (5 * (
            u64::MAX - fee))
        },
    ensures
        fee_fits(fee, difficult),
{
    if difficult > 20 {
        a_surcharge_is_a_twentieth_for_each_point(fee, difficult);
    }
}

/// A fee that fits can be computed step by step in 64 bits.
pub proof fn a_fitting_fee_never_overflows(fee: nat, difficult: nat)
    requires
        fee_fits(fee, difficult),
    ensures
        difficult > 20 ==> fee + 4 * surcharge(fee, difficult) <= u64::MAX && 3 * fee <= u64::MAX,
{
}

/// The line on the fee names the whole fee, and there is one exactly if there is a
/// fee to tell of.
pub proof fn a_fee_is_shown_whole(fee: u64)
    ensures
        fee_line(None) is None,
        fee_line(Some(fee)) matches Some(line) && {
            &&& line.outlet == Outlet::Console
            &&& line.badge == Badge::Plain
            &&& line.text == "change extra fee to "@ + decimal(fee as nat)
        },
{
}

/// The compute units that a budget asks for.
pub open spec fn compute_units(budget: ComputeBudget) -> u32 {
    match budget {
        ComputeBudget::Dynamic => DYNAMIC_COMPUTE_UNITS,
        ComputeBudget::Fixed(units) => units,
    }
}

/// The instructions of a transaction that goes to the gateway: the compute
/// budget and its price, then those of the caller.
pub open spec fn gateway_list(
    budget: ComputeBudget,
    price: u64,
    ixs: Seq<InstructionView>,
) -> Seq<InstructionView> {
    seq![unit_limit_instruction(compute_units(budget)), unit_price_instruction(price)] + ixs
}

/// The instructions of a transaction that goes into a bundle: the compute budget
/// at no price, the tip, then those of the caller.
pub open spec fn bundle_list(
    budget: ComputeBudget,
    tip: InstructionView,
    ixs: Seq<InstructionView>,
) -> Seq<InstructionView> {
    seq![unit_limit_instruction(compute_units(budget)), unit_price_instruction(0), tip] + ixs
}

/// The instruction that asks for the compute units of a budget.
fn budget_instruction(budget: ComputeBudget) -> (ix: Instruction)
    ensures
        ix@ == unit_limit_instruction(compute_units(budget)),
{
    match budget {
        ComputeBudget::Dynamic => set_compute_unit_limit(DYNAMIC_COMPUTE_UNITS),
        ComputeBudget::Fixed(units) => set_compute_unit_limit(units),
    }
}

/// Appends a copy of each instruction.
fn extend(list: &mut Vec<Instruction>, ixs: &[Instruction])
    ensures
        instruction_views(final(list)@) == instruction_views(old(list)@) + instruction_views(ixs@),
{
    let ghost before = instruction_views(list@);
    let ghost added = instruction_views(ixs@);
    assert(before + added.take(0) =~= before);
    let mut i: usize = 0;
    while i < ixs.len()
        invariant
            i <= ixs@.len(),
            added == instruction_views(ixs@),
            instruction_views(list@) == before + added.take(i as int),
        decreases ixs@.len() - i,
    {
        let ghost current = instruction_views(list@);
        let copy: Instruction = ixs[i].clone();
        list.push(copy);
        assert(instruction_views(list@) =~= current.push(copy@));
        assert(before + added.take(i + 1) =~= (before + added.take(i as int)).push(
            added[i as int],
        ));
        i += 1;
    }
    assert(added.take(i as int) =~= added);
}

/// The instructions of a transaction that goes to the gateway.
pub fn gateway_instructions(budget: ComputeBudget, price: u64, ixs: &[Instruction]) -> (list: Vec<
    Instruction,
>)
    ensures
        instruction_views(list@) == gateway_list(budget, price, instruction_views(ixs@)),
        list@.len() == ixs@.len() + 2,
        eight_bytes(list@[1].data@, 1) == price,
        forall|i: int| 0 <= i < ixs@.len() ==> (#[trigger] list@[i + 2])@ == ixs@[i]@,
{
    let mut list: Vec<Instruction> = Vec::new();
    list.push(budget_instruction(budget));
    list.push(set_compute_unit_price(price));
    let ghost head = seq![
        unit_limit_instruction(compute_units(budget)),
        unit_price_instruction(price),
    ];
    assert(instruction_views(list@) =~= head);
    extend(&mut list, ixs);
    proof {
        let views = instruction_views(list@);
        the_gateway_list_holds_the_price_and_every_instruction(
            budget,
            price,
            instruction_views(ixs@),
        );
        assert(views[1] == list@[1]@);
        assert forall|i: int| 0 <= i < ixs@.len() implies (#[trigger] list@[i + 2])@
            == ixs@[i]@ by {
            assert(views[i + 2] == instruction_views(ixs@)[i]);
        }
    }
    list
}

/// The instructions of a transaction that goes into a bundle.
pub fn bundle_instructions(budget: ComputeBudget, tip: Instruction, ixs: &[Instruction]) -> (list:
    Vec<Instruction>)
    ensures
        instruction_views(list@) == bundle_list(budget, tip@, instruction_views(ixs@)),
        list@.len() == ixs@.len() + 3,
        eight_bytes(list@[1].data@, 1) == 0,
        list@[2]@ == tip@,
        forall|i: int| 0 <= i < ixs@.len() ==> (#[trigger] list@[i + 3])@ == ixs@[i]@,
{
    let mut list: Vec<Instruction> = Vec::new();
    list.push(budget_instruction(budget));
    list.push(set_compute_unit_price(0));
    let ghost head = seq![
        unit_limit_instruction(compute_units(budget)),
        unit_price_instruction(0),
        tip@,
    ];
    list.push(tip);
    assert(instruction_views(list@) =~= head);
    extend(&mut list, ixs);
    proof {
        let views = instruction_views(list@);
        the_bundle_list_holds_the_tip_and_every_instruction(
            budget,
            tip@,
            instruction_views(ixs@),
        );
        assert(views[1] == list@[1]@);
        assert(views[2] == list@[2]@);
        assert forall|i: int| 0 <= i < ixs@.len() implies (#[trigger] list@[i + 3])@
            == ixs@[i]@ by {
            assert(views[i + 3] == instruction_views(ixs@)[i]);
        }
    }
    list
}

/// The list for the gateway has the caller's instructions, all of them and in
/// order, behind two of its own: the limit, with the units of the budget, and the
/// price, which is the given one to the last bit.
pub proof fn the_gateway_list_holds_the_price_and_every_instruction(
    budget: ComputeBudget,
    price: u64,
    ixs: Seq<InstructionView>,
)
    ensures
        ({
            let list = gateway_list(budget, price, ixs);
            let (limit, pays) = (list[0], list[1].data);
            &&& list.len() == ixs.len() + 2
            &&& forall|i: int| 0 <= i < ixs.len() ==> #[trigger] list[i + 2] == ixs[i]
            &&& limit.program_id == COMPUTE_BUDGET_PROGRAM@
            &&& limit.accounts.len() == 0
            &&& limit.data.len() == 5
            &&& limit.data[0] == 2
            &&& limit.data[1] + 0x100 * limit.data[2] + 0x1_0000 * limit.data[3] + 0x100_0000
                * limit.data[4] == match budget {
                ComputeBudget::Dynamic => 1_400_000,
                ComputeBudget::Fixed(units) => units as int,
            }
            &&& list[1].program_id == COMPUTE_BUDGET_PROGRAM@
            &&& list[1].accounts.len() == 0
            &&& pays.len() == 9
            &&& pays[0] == 3
            &&& pays[1] + 0x100 * pays[2] + 0x1_0000 * pays[3] + 0x100_0000 * pays[4]
                + 0x1_0000_0000 * pays[5] + 0x100_0000_0000 * pays[6] + 0x1_0000_0000_0000
                * pays[7] + 0x100_0000_0000_0000 * pays[8] == price
        }),
{
    a_limit_holds_its_units(compute_units(budget));
    a_price_is_paid_in_full(price);
}

/// The list for a bundle has the caller's instructions, all of them and in order,
/// behind three of its own: the limit, with the units of the budget, a price of
/// nothing, and the tip.
pub proof fn the_bundle_list_holds_the_tip_and_every_instruction(
    budget: ComputeBudget,
    tip: InstructionView,
    ixs: Seq<InstructionView>,
)
    ensures
        ({
            let list = bundle_list(budget, tip, ixs);
            let (limit, pays) = (list[0], list[1].data);
            &&& list.len() == ixs.len() + 3
            &&& list[2] == tip
            &&& forall|i: int| 0 <= i < ixs.len() ==> #[trigger] list[i + 3] == ixs[i]
            &&& limit.program_id == COMPUTE_BUDGET_PROGRAM@
            &&& limit.accounts.len() == 0
            &&& limit.data.len() == 5
            &&& limit.data[0] == 2
            &&& limit.data[1] + 0x100 * limit.data[2] + 0x1_0000 * limit.data[3] + 0x100_0000
                * limit.data[4] == match budget {
                ComputeBudget::Dynamic => 1_400_000,
                ComputeBudget::Fixed(units) => units as int,
            }
            &&& list[1].program_id == COMPUTE_BUDGET_PROGRAM@
            &&& list[1].accounts.len() == 0
            &&& pays.len() == 9
            &&& pays[0] == 3
            &&& forall|i: int| 1 <= i < 9 ==> pays[i] == 0
        }),
{
    a_limit_holds_its_units(compute_units(budget));
    a_price_is_paid_in_full(0);
}

/// What a miner sends to the gateway for its caller.
pub open spec fn gateway_calls(
    miner: Miner,
    ixs: Seq<Instruction>,
    budget: ComputeBudget,
) -> Seq<InstructionView> {
    gateway_list(budget, miner.priority_fee, instruction_views(ixs))
}

/// A miner sends all of its caller's instructions to the gateway, in order, and pays
/// its own priority fee for them, to the last bit.
pub proof fn a_miner_pays_its_priority_fee(
    miner: Miner,
    ixs: Seq<Instruction>,
    budget: ComputeBudget,
)
    ensures
        ({
            let calls = gateway_calls(miner, ixs, budget);
            let (limit, pays) = (calls[0].data, calls[1].data);
            &&& calls.len() == ixs.len() + 2
            &&& forall|i: int| 0 <= i < ixs.len() ==> #[trigger] calls[i + 2] == ixs[i]@
            &&& limit.len() == 5
            &&& limit[0] == 2
            &&& limit[1] + 0x100 * limit[2] + 0x1_0000 * limit[3] + 0x100_0000 * limit[4]
                == match budget {
                ComputeBudget::Dynamic => 1_400_000,
                ComputeBudget::Fixed(units) => units as int,
            }
            &&& pays.len() == 9
            &&& pays[0] == 3
            &&& pays[1] + 0x100 * pays[2] + 0x1_0000 * pays[3] + 0x100_0000 * pays[4]
                + 0x1_0000_0000 * pays[5] + 0x100_0000_0000 * pays[6] + 0x1_0000_0000_0000
                * pays[7] + 0x100_0000_0000_0000 * pays[8] == miner.priority_fee
        }),
{
    let views = instruction_views(ixs);
    the_gateway_list_holds_the_price_and_every_instruction(budget, miner.priority_fee, views);
    assert forall|i: int| 0 <= i < ixs.len() implies #[trigger] gateway_calls(
        miner,
        ixs,
        budget,
    )[i + 2] == ixs[i]@ by {
        assert(gateway_list(budget, miner.priority_fee, views)[i + 2] == views[i]);
    }
}

} // verus!
