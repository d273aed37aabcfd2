//! Which lists of instructions one keypair can sign as one transaction.

use crate::instruction::{
    instruction_views, AccountMeta, AccountMetaView, Instruction, InstructionView, Pubkey,
};
use vstd::prelude::*;

verus! {

/// The longest list that the wire format of a transaction can count.
pub const LIST_MAX: usize = 65535;

/// The most read-only accounts that the header of a message can count.
pub const READONLY_MAX: usize = 255;

/// The addresses of a list of accounts.
pub open spec fn addresses(accounts: Seq<AccountMetaView>) -> Seq<Seq<u8>> {
    accounts.map_values(|meta: AccountMetaView| meta.pubkey)
}

/// The addresses that the instructions mention, in order and with repetitions.
pub open spec fn mentioned(ixs: Seq<InstructionView>) -> Seq<Seq<u8>>
    decreases ixs.len(),
{
    if ixs.len() == 0 {
        Seq::empty()
    } else {
        mentioned(ixs.drop_last()).push(ixs.last().program_id) + addresses(ixs.last().accounts)
    }
}

/// The accounts of a transaction that `payer` pays for.
pub open spec fn account_keys(ixs: Seq<InstructionView>, payer: Seq<u8>) -> Set<Seq<u8>> {
    mentioned(ixs).to_set().insert(payer)
}

/// Some instruction may write to the account.
pub open spec fn is_written(ixs: Seq<InstructionView>, key: Seq<u8>) -> bool {
    exists|i: int, j: int|
        0 <= i < ixs.len() && 0 <= j < ixs[i].accounts.len() && {
            &&& (#[trigger] ixs[i].accounts[j]).pubkey == key
            &&& ixs[i].accounts[j].is_writable
        }
}

/// The accounts that no instruction may write to, the payer aside.
pub open spec fn readonly_keys(ixs: Seq<InstructionView>, payer: Seq<u8>) -> Set<Seq<u8>> {
    account_keys(ixs, payer).filter(|key: Seq<u8>| key != payer && !is_written(ixs, key))
}

/// No account but the payer has to sign.
pub open spec fn signed_by_payer_alone(ixs: Seq<InstructionView>, payer: Seq<u8>) -> bool {
    forall|i: int, j: int|
        0 <= i < ixs.len() && 0 <= j < ixs[i].accounts.len() ==> {
            (#[trigger] ixs[i].accounts[j]).is_signer ==> ixs[i].accounts[j].pubkey == payer
        }
}

/// The lists inside each instruction can be counted in the wire format.
pub open spec fn countable(ixs: Seq<InstructionView>) -> bool {
    &&& ixs.len() <= LIST_MAX
    &&& forall|i: int|
        0 <= i < ixs.len() ==> (#[trigger] ixs[i]).accounts.len() <= LIST_MAX && ixs[i].data.len()
            <= LIST_MAX
}

/// The instructions make a transaction that the keypair of `payer` can sign.
pub open spec fn signable(ixs: Seq<InstructionView>, payer: Seq<u8>) -> bool {
    &&& signed_by_payer_alone(ixs, payer)
    &&& countable(ixs)
    &&& account_keys(ixs, payer).len() <= LIST_MAX
    &&& readonly_keys(ixs, payer).len() <= READONLY_MAX
}

/// The views of a list of addresses.
pub open spec fn key_views(keys: Seq<Pubkey>) -> Seq<Seq<u8>> {
    keys.map_values(|key: Pubkey| key@)
}

/// Whether two addresses are the same.
fn same_key(a: &Pubkey, b: &Pubkey) -> (same: bool)
    ensures
        same == (a@ == b@),
{
    let mut i: usize = 0;
    while i < 32
        invariant
            i <= 32,
            forall|k: int| 0 <= k < i ==> a@[k] == b@[k],
        decreases 32 - i,
    {
        if a[i] != b[i] {
            return false;
        }
        i += 1;
    }
    assert(a@ =~= b@);
    true
}

/// Adds an address to a list without repetitions, unless it is there.
fn add_key(keys: &mut Vec<Pubkey>, key: &Pubkey)
    requires
        key_views(old(keys)@).no_duplicates(),
    ensures
        key_views(final(keys)@).no_duplicates(),
        key_views(final(keys)@).to_set() == key_views(old(keys)@).to_set().insert(key@),
{
    let ghost before = key_views(keys@);
    let mut i: usize = 0;
    while i < keys.len()
        invariant
            i <= keys@.len(),
            key_views(keys@) == before,
            before.no_duplicates(),
            forall|k: int| 0 <= k < i ==> before[k] != key@,
        decreases keys@.len() - i,
    {
        if same_key(&keys[i], key) {
            proof {
                assert(before[i as int] == key@);
                assert(before.to_set().insert(key@) =~= before.to_set());
            }
            return;
        }
        i += 1;
    }
    keys.push(*key);
    proof {
        assert(key_views(keys@) =~= before.push(key@));
        before.lemma_push_to_set_commute(key@);
    }
}

/// The accounts of a transaction, each once.
fn distinct_keys(ixs: &Vec<Instruction>, payer: &Pubkey) -> (keys: Vec<Pubkey>)
    ensures
        key_views(keys@).no_duplicates(),
        key_views(keys@).to_set() == account_keys(instruction_views(ixs@), payer@),
{
    let ghost views = instruction_views(ixs@);
    let mut keys: Vec<Pubkey> = Vec::new();
    assert(key_views(keys@).to_set() =~= mentioned(views.take(0)).to_set());
    let mut i: usize = 0;
    while i < ixs.len()
        invariant
            i <= ixs@.len(),
            views == instruction_views(ixs@),
            key_views(keys@).no_duplicates(),
            key_views(keys@).to_set() == mentioned(views.take(i as int)).to_set(),
        decreases ixs@.len() - i,
    {
        let ghost prefix = mentioned(views.take(i as int)).push(ixs@[i as int].program_id@);
        proof {
            mentioned(views.take(i as int)).lemma_push_to_set_commute(ixs@[i as int].program_id@);
        }
        add_key(&mut keys, &ixs[i].program_id);
        let ghost all = addresses(views[i as int].accounts);
        assert(prefix + all.take(0) =~= prefix);
        let mut j: usize = 0;
        while j < ixs[i].accounts.len()
            invariant
                i < ixs@.len(),
                j <= ixs@[i as int].accounts@.len(),
                views == instruction_views(ixs@),
                all == addresses(views[i as int].accounts),
                key_views(keys@).no_duplicates(),
                key_views(keys@).to_set() == (prefix + all.take(j as int)).to_set(),
            decreases ixs@[i as int].accounts@.len() - j,
        {
            proof {
                assert(all[j as int] == ixs@[i as int].accounts@[j as int].pubkey@);
                (prefix + all.take(j as int)).lemma_push_to_set_commute(all[j as int]);
                assert((prefix + all.take(j as int)).push(all[j as int]) =~= prefix + all.take(
                    j + 1,
                ));
            }
            add_key(&mut keys, &ixs[i].accounts[j].pubkey);
            j += 1;
        }
        proof {
            assert(all.take(j as int) =~= all);
            assert(views.take(i + 1).drop_last() =~= views.take(i as int));
            assert(views.take(i + 1).last() == views[i as int]);
        }
        i += 1;
    }
    assert(views.take(i as int) =~= views);
    add_key(&mut keys, payer);
    keys
}

/// Whether some instruction may write to the account.
fn writes_to(ixs: &Vec<Instruction>, key: &Pubkey) -> (found: bool)
    ensures
        found == is_written(instruction_views(ixs@), key@),
{
    let ghost views = instruction_views(ixs@);
    let mut i: usize = 0;
    while i < ixs.len()
        invariant
            i <= ixs@.len(),
            views == instruction_views(ixs@),
            forall|a: int, b: int|
                0 <= a < i && 0 <= b < views[a].accounts.len() ==> {
                    (#[trigger] views[a].accounts[b]).pubkey == key@
                        ==> !views[a].accounts[b].is_writable
                },
        decreases ixs@.len() - i,
    {
        let mut j: usize = 0;
        while j < ixs[i].accounts.len()
            invariant
                i < ixs@.len(),
                j <= ixs@[i as int].accounts@.len(),
                views == instruction_views(ixs@),
                forall|b: int|
                    0 <= b < j && (#[trigger] views[i as int].accounts[b]).pubkey == key@
                        ==> !views[i as int].accounts[b].is_writable,
            decreases ixs@[i as int].accounts@.len() - j,
        {
            let meta: AccountMeta = ixs[i].accounts[j];
            assert(views[i as int].accounts[j as int] == meta@);
            if meta.is_writable && same_key(&meta.pubkey, key) {
                return true;
            }
            j += 1;
        }
        i += 1;
    }
    false
}

/// Whether no account but the payer has to sign.
fn only_payer_signs(ixs: &Vec<Instruction>, payer: &Pubkey) -> (alone: bool)
    ensures
        alone == signed_by_payer_alone(instruction_views(ixs@), payer@),
{
    let ghost views = instruction_views(ixs@);
    let mut i: usize = 0;
    while i < ixs.len()
        invariant
            i <= ixs@.len(),
            views == instruction_views(ixs@),
            forall|a: int, b: int|
                0 <= a < i && 0 <= b < views[a].accounts.len() ==> {
                    (#[trigger] views[a].accounts[b]).is_signer
                        ==> views[a].accounts[b].pubkey == payer@
                },
        decreases ixs@.len() - i,
    {
        let mut j: usize = 0;
        while j < ixs[i].accounts.len()
            invariant
                i < ixs@.len(),
                j <= ixs@[i as int].accounts@.len(),
                views == instruction_views(ixs@),
                forall|b: int|
                    0 <= b < j && (#[trigger] views[i as int].accounts[b]).is_signer
                        ==> views[i as int].accounts[b].pubkey == payer@,
            decreases ixs@[i as int].accounts@.len() - j,
        {
            let meta: AccountMeta = ixs[i].accounts[j];
            assert(views[i as int].accounts[j as int] == meta@);
            if meta.is_signer && !same_key(&meta.pubkey, payer) {
                return false;
            }
            j += 1;
        }
        i += 1;
    }
    true
}

/// Whether the lists inside each instruction can be counted in the wire format.
fn all_countable(ixs: &Vec<Instruction>) -> (fits: bool)
    ensures
        fits == countable(instruction_views(ixs@)),
{
    let ghost views = instruction_views(ixs@);
    if ixs.len() > LIST_MAX {
        return false;
    }
    let mut i: usize = 0;
    while i < ixs.len()
        invariant
            i <= ixs@.len() <= LIST_MAX,
            views == instruction_views(ixs@),
            forall|a: int|
                0 <= a < i ==> (#[trigger] views[a]).accounts.len() <= LIST_MAX
                    && views[a].data.len() <= LIST_MAX,
        decreases ixs@.len() - i,
    {
        assert(views[i as int] == ixs@[i as int]@);
        if ixs[i].accounts.len() > LIST_MAX || ixs[i].data.len() > LIST_MAX {
            return false;
        }
        i += 1;
    }
    true
}

/// Whether the instructions make a transaction that the keypair of `payer` can
/// sign.
pub fn is_signable(ixs: &Vec<Instruction>, payer: &Pubkey) -> (fits: bool)
    ensures
        fits == signable(instruction_views(ixs@), payer@),
{
    let ghost views = instruction_views(ixs@);
    if !only_payer_signs(ixs, payer) || !all_countable(ixs) {
        return false;
    }
    let keys: Vec<Pubkey> = distinct_keys(ixs, payer);
    let ghost names = key_views(keys@);
    let ghost kept = |key: Seq<u8>| key != payer@ && !is_written(views, key);
    proof {
        names.unique_seq_to_set();
    }
    if keys.len() > LIST_MAX {
        return false;
    }
    let mut readonly: Vec<Pubkey> = Vec::new();
    assert(key_views(readonly@).to_set() =~= names.take(0).to_set().filter(kept));
    let mut i: usize = 0;
    while i < keys.len()
        invariant
            i <= keys@.len(),
            views == instruction_views(ixs@),
            names == key_views(keys@),
            kept == (|key: Seq<u8>| key != payer@ && !is_written(views, key)),
            key_views(readonly@).no_duplicates(),
            key_views(readonly@).to_set() == names.take(i as int).to_set().filter(kept),
        decreases keys@.len() - i,
    {
        let ghost prefix = names.take(i as int);
        proof {
            assert(names.take(i + 1) =~= prefix.push(names[i as int]));
            prefix.lemma_push_to_set_commute(names[i as int]);
        }
        if !same_key(&keys[i], payer) && !writes_to(ixs, &keys[i]) {
            assert(prefix.to_set().insert(names[i as int]).filter(kept)
                =~= prefix.to_set().filter(kept).insert(names[i as int]));
            add_key(&mut readonly, &keys[i]);
        } else {
            assert(prefix.to_set().insert(names[i as int]).filter(kept)
                =~= prefix.to_set().filter(kept));
        }
        i += 1;
    }
    proof {
        assert(names.take(i as int) =~= names);
        key_views(readonly@).unique_seq_to_set();
        assert(account_keys(views, payer@).filter(kept) =~= readonly_keys(views, payer@));
    }
    readonly.len() <= READONLY_MAX
}

/// Two lists mention what each of them mentions.
pub proof fn lemma_mentioned_concat(a: Seq<InstructionView>, b: Seq<InstructionView>)
    ensures
        mentioned(a + b) == mentioned(a) + mentioned(b),
    decreases b.len(),
{
    if b.len() == 0 {
        assert(a + b =~= a);
        assert(mentioned(a) + mentioned(b) =~= mentioned(a));
    } else {
        lemma_mentioned_concat(a, b.drop_last());
        assert((a + b).drop_last() =~= a + b.drop_last());
        assert(mentioned(a + b) =~= mentioned(a) + mentioned(b));
    }
}

/// Instructions that mention few accounts can be signed, if nobody but the payer
/// has to sign.
pub proof fn few_accounts_are_signable(ixs: Seq<InstructionView>, payer: Seq<u8>)
    requires
        signed_by_payer_alone(ixs, payer),
        countable(ixs),
        mentioned(ixs).len() <= READONLY_MAX,
    ensures
        signable(ixs, payer),
{
    let all = mentioned(ixs).to_set();
    let keys = account_keys(ixs, payer);
    mentioned(ixs).lemma_cardinality_of_set();
    vstd::seq_lib::seq_to_set_is_finite(mentioned(ixs));
    assert(readonly_keys(ixs, payer).subset_of(all));
    vstd::set_lib::lemma_len_subset(readonly_keys(ixs, payer), all);
}

/// An address is mentioned by an instruction as its program or as an account.
proof fn lemma_mentioned(ixs: Seq<InstructionView>, key: Seq<u8>)
    ensures
        mentioned(ixs).contains(key) <==> {
            ||| exists|i: int| 0 <= i < ixs.len() && (#[trigger] ixs[i]).program_id == key
            ||| exists|i: int, j: int|
                0 <= i < ixs.len() && 0 <= j < ixs[i].accounts.len()
                    && (#[trigger] ixs[i].accounts[j]).pubkey == key
        },
    decreases ixs.len(),
{
    if ixs.len() > 0 {
        let before = ixs.drop_last();
        let last = ixs.last();
        let names = mentioned(before);
        let own = addresses(last.accounts);
        lemma_mentioned(before, key);
        assert(mentioned(ixs) == names.push(last.program_id) + own);
        if mentioned(ixs).contains(key) {
            let at = choose|at: int| 0 <= at < mentioned(ixs).len() && mentioned(ixs)[at] == key;
            if at < names.len() {
                assert(names[at] == key);
                if exists|i: int|
                    0 <= i < before.len() && (#[trigger] before[i]).program_id == key {
                    let i = choose|i: int|
                        0 <= i < before.len() && (#[trigger] before[i]).program_id == key;
                    assert(ixs[i].program_id == key);
                } else {
                    let (i, j) = choose|i: int, j: int|
                        0 <= i < before.len() && 0 <= j < before[i].accounts.len()
                            && (#[trigger] before[i].accounts[j]).pubkey == key;
                    assert(ixs[i].accounts[j].pubkey == key);
                }
            } else if at == names.len() {
                assert(ixs[ixs.len() - 1].program_id == key);
            } else {
                let j = at - names.len() - 1;
                assert(ixs[ixs.len() - 1].accounts[j].pubkey == key);
            }
        }
        if exists|i: int| 0 <= i < ixs.len() && (#[trigger] ixs[i]).program_id == key {
            let i = choose|i: int| 0 <= i < ixs.len() && (#[trigger] ixs[i]).program_id == key;
            if i < before.len() {
                assert(before[i].program_id == key);
                let at = choose|at: int| 0 <= at < names.len() && names[at] == key;
                assert(mentioned(ixs)[at] == key);
            } else {
                assert(mentioned(ixs)[names.len() as int] == key);
            }
        }
        if exists|i: int, j: int|
            0 <= i < ixs.len() && 0 <= j < ixs[i].accounts.len()
                && (#[trigger] ixs[i].accounts[j]).pubkey == key {
            let (i, j) = choose|i: int, j: int|
                0 <= i < ixs.len() && 0 <= j < ixs[i].accounts.len()
                    && (#[trigger] ixs[i].accounts[j]).pubkey == key;
            if i < before.len() {
                assert(before[i].accounts[j].pubkey == key);
                let at = choose|at: int| 0 <= at < names.len() && names[at] == key;
                assert(mentioned(ixs)[at] == key);
            } else {
                assert(own[j] == key);
                assert(mentioned(ixs)[names.len() + 1 + j] == key);
            }
        }
    }
}

/// The accounts of a transaction are the payer, the programs that are called and
/// the accounts that they are called on. Read-only among them are those, the payer
/// aside, that no call may write to.
pub proof fn accounts_are_those_that_are_used(
    ixs: Seq<InstructionView>,
    payer: Seq<u8>,
    key: Seq<u8>,
)
    ensures
        account_keys(ixs, payer).contains(key) <==> {
            ||| key == payer
            ||| exists|i: int| 0 <= i < ixs.len() && (#[trigger] ixs[i]).program_id == key
            ||| exists|i: int, j: int|
                0 <= i < ixs.len() && 0 <= j < ixs[i].accounts.len()
                    && (#[trigger] ixs[i].accounts[j]).pubkey == key
        },
        readonly_keys(ixs, payer).contains(key) <==> {
            &&& account_keys(ixs, payer).contains(key)
            &&& key != payer
            &&& forall|i: int, j: int|
                0 <= i < ixs.len() && 0 <= j < ixs[i].accounts.len()
                    && (#[trigger] ixs[i].accounts[j]).pubkey == key
                    ==> !ixs[i].accounts[j].is_writable
        },
{
    lemma_mentioned(ixs, key);
}

/// Instructions can be signed exactly if every signer among their accounts is the
/// payer, no list has more than 65535 entries, and no more than 255 accounts are
/// read-only.
pub proof fn nothing_else_keeps_from_signing(ixs: Seq<InstructionView>, payer: Seq<u8>)
    ensures
        signable(ixs, payer) <==> {
            &&& forall|i: int, j: int|
                0 <= i < ixs.len() && 0 <= j < ixs[i].accounts.len()
                    && (#[trigger] ixs[i].accounts[j]).is_signer
                    ==> ixs[i].accounts[j].pubkey == payer
            &&& ixs.len() <= 65535
            &&& forall|i: int|
                0 <= i < ixs.len() ==> (#[trigger] ixs[i]).accounts.len() <= 65535
            &&& forall|i: int| 0 <= i < ixs.len() ==> (#[trigger] ixs[i]).data.len() <= 65535
            &&& account_keys(ixs, payer).len() <= 65535
            &&& readonly_keys(ixs, payer).len() <= 255
        },
{
}

} // verus!
