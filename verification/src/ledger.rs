//! The value model of the host ledger: how much every wallet and every
//! campaign escrow holds, what a donor's balance is, and how those totals
//! move when an entry is changed or added. The lemmas here are what make
//! conservation of value provable across every operation.
use vstd::prelude::*;
use crate::state::{Campaign, Donation, Wallet};

verus! {

/// Everything the external wallets hold together.
pub open spec fn wallet_sum(ws: Seq<Wallet>) -> int
    decreases ws.len(),
{
    if ws.len() == 0 {
        0
    } else {
        ws.first().lamports + wallet_sum(ws.drop_first())
    }
}

/// What one wallet entry contributes to the balance of `owner`.
pub open spec fn wallet_contrib(w: Wallet, owner: u64) -> int {
    if w.owner == owner {
        w.lamports as int
    } else {
        0
    }
}

/// The balance of `owner`: the sum of the entries it owns.
pub open spec fn balance_of(ws: Seq<Wallet>, owner: u64) -> int
    decreases ws.len(),
{
    if ws.len() == 0 {
        0
    } else {
        wallet_contrib(ws.first(), owner) + balance_of(ws.drop_first(), owner)
    }
}

/// Everything the campaign records custody together.
pub open spec fn escrow_sum(cs: Seq<Campaign>) -> int
    decreases cs.len(),
{
    if cs.len() == 0 {
        0
    } else {
        cs.first().lamports + escrow_sum(cs.drop_first())
    }
}

/// What one donation record contributes to the funding of the campaign at
/// `addr`: its amount while it names that campaign and is not refunded.
pub open spec fn donation_contrib(d: Donation, addr: Seq<u8>) -> int {
    if d.campaign@ == addr && !d.refunded {
        d.amount as int
    } else {
        0
    }
}

/// The sum of the non-refunded donations to the campaign at `addr`.
pub open spec fn donation_sum(ds: Seq<Donation>, addr: Seq<u8>) -> int
    decreases ds.len(),
{
    if ds.len() == 0 {
        0
    } else {
        donation_contrib(ds.first(), addr) + donation_sum(ds.drop_first(), addr)
    }
}

/// No two wallet entries share an owner.
pub open spec fn distinct_owners(ws: Seq<Wallet>) -> bool {
    forall|i: int, j: int| 0 <= i < j < ws.len() ==> ws[i].owner != ws[j].owner
}

pub proof fn lemma_wallet_sum_update(ws: Seq<Wallet>, i: int, w: Wallet)
    requires
        0 <= i < ws.len(),
    ensures
        wallet_sum(ws.update(i, w)) == wallet_sum(ws) - ws[i].lamports + w.lamports,
        forall|o: u64|
            balance_of(ws.update(i, w), o) == balance_of(ws, o) - wallet_contrib(ws[i], o)
                + wallet_contrib(w, o),
    decreases ws.len(),
{
    let u = ws.update(i, w);
    if i == 0 {
        assert(u.first() == w);
        assert(u.drop_first() =~= ws.drop_first());
        assert forall|o: u64|
            balance_of(u, o) == balance_of(ws, o) - wallet_contrib(ws[i], o) + wallet_contrib(
                w,
                o,
            ) by {
            assert(balance_of(u.drop_first(), o) == balance_of(ws.drop_first(), o));
        }
    } else {
        assert(u.first() == ws.first());
        assert(u.drop_first() =~= ws.drop_first().update(i - 1, w));
        lemma_wallet_sum_update(ws.drop_first(), i - 1, w);
        assert(ws.drop_first()[i - 1] == ws[i]);
        assert forall|o: u64|
            balance_of(u, o) == balance_of(ws, o) - wallet_contrib(ws[i], o) + wallet_contrib(
                w,
                o,
            ) by {
            assert(balance_of(u.drop_first(), o) == balance_of(ws.drop_first(), o)
                - wallet_contrib(ws[i], o) + wallet_contrib(w, o));
        }
    }
}

pub proof fn lemma_wallet_sum_push(ws: Seq<Wallet>, w: Wallet)
    ensures
        wallet_sum(ws.push(w)) == wallet_sum(ws) + w.lamports,
        forall|o: u64|
            balance_of(ws.push(w), o) == balance_of(ws, o) + wallet_contrib(w, o),
    decreases ws.len(),
{
    let p = ws.push(w);
    if ws.len() == 0 {
        assert(p.first() == w);
        assert(p.drop_first() =~= Seq::<Wallet>::empty());
        assert(wallet_sum(p.drop_first()) == 0);
        assert forall|o: u64| balance_of(p, o) == balance_of(ws, o) + wallet_contrib(w, o) by {
            assert(balance_of(p.drop_first(), o) == 0);
        }
    } else {
        assert(p.first() == ws.first());
        assert(p.drop_first() =~= ws.drop_first().push(w));
        lemma_wallet_sum_push(ws.drop_first(), w);
        assert(wallet_sum(p.drop_first()) == wallet_sum(ws.drop_first()) + w.lamports);
        assert forall|o: u64| balance_of(p, o) == balance_of(ws, o) + wallet_contrib(w, o) by {
            assert(balance_of(p.drop_first(), o) == balance_of(ws.drop_first(), o)
                + wallet_contrib(w, o));
        }
    }
}

/// A balance is part of the whole: never negative, never more than the sum.
pub proof fn lemma_balance_le_sum(ws: Seq<Wallet>, o: u64)
    ensures
        0 <= balance_of(ws, o) <= wallet_sum(ws),
    decreases ws.len(),
{
    if ws.len() > 0 {
        lemma_balance_le_sum(ws.drop_first(), o);
    }
}

/// With distinct owners, the balance of an owner is its one entry.
pub proof fn lemma_balance_unique(ws: Seq<Wallet>, i: int)
    requires
        0 <= i < ws.len(),
        forall|k: int| 0 <= k < ws.len() && k != i ==> ws[k].owner != ws[i].owner,
    ensures
        balance_of(ws, ws[i].owner) == ws[i].lamports,
    decreases ws.len(),
{
    if i == 0 {
        lemma_balance_absent(ws.drop_first(), ws[0].owner);
    } else {
        lemma_balance_unique(ws.drop_first(), i - 1);
    }
}

/// An owner with no entry has balance zero.
pub proof fn lemma_balance_absent(ws: Seq<Wallet>, o: u64)
    requires
        forall|k: int| 0 <= k < ws.len() ==> ws[k].owner != o,
    ensures
        balance_of(ws, o) == 0,
    decreases ws.len(),
{
    if ws.len() > 0 {
        lemma_balance_absent(ws.drop_first(), o);
    }
}

pub proof fn lemma_escrow_sum_update(cs: Seq<Campaign>, i: int, c: Campaign)
    requires
        0 <= i < cs.len(),
    ensures
        escrow_sum(cs.update(i, c)) == escrow_sum(cs) - cs[i].lamports + c.lamports,
    decreases cs.len(),
{
    if i == 0 {
        assert(cs.update(0, c).drop_first() =~= cs.drop_first());
    } else {
        assert(cs.update(i, c).drop_first() =~= cs.drop_first().update(i - 1, c));
        lemma_escrow_sum_update(cs.drop_first(), i - 1, c);
    }
}

pub proof fn lemma_escrow_sum_push(cs: Seq<Campaign>, c: Campaign)
    ensures
        escrow_sum(cs.push(c)) == escrow_sum(cs) + c.lamports,
    decreases cs.len(),
{
    let p = cs.push(c);
    if cs.len() == 0 {
        assert(p.first() == c);
        assert(p.drop_first() =~= Seq::<Campaign>::empty());
        assert(escrow_sum(p.drop_first()) == 0);
    } else {
        assert(p.first() == cs.first());
        assert(p.drop_first() =~= cs.drop_first().push(c));
        lemma_escrow_sum_push(cs.drop_first(), c);
        assert(escrow_sum(p.drop_first()) == escrow_sum(cs.drop_first()) + c.lamports);
    }
}

/// One campaign's escrow is part of the whole escrow.
pub proof fn lemma_campaign_le_escrow_sum(cs: Seq<Campaign>, i: int)
    requires
        0 <= i < cs.len(),
    ensures
        cs[i].lamports <= escrow_sum(cs),
        0 <= escrow_sum(cs),
    decreases cs.len(),
{
    if cs.len() > 0 {
        if i == 0 {
            lemma_escrow_sum_nonneg(cs.drop_first());
        } else {
            lemma_campaign_le_escrow_sum(cs.drop_first(), i - 1);
        }
    }
}

pub proof fn lemma_escrow_sum_nonneg(cs: Seq<Campaign>)
    ensures
        0 <= escrow_sum(cs),
    decreases cs.len(),
{
    if cs.len() > 0 {
        lemma_escrow_sum_nonneg(cs.drop_first());
    }
}

pub proof fn lemma_donation_sum_update(ds: Seq<Donation>, i: int, d: Donation)
    requires
        0 <= i < ds.len(),
    ensures
        forall|a: Seq<u8>|
            donation_sum(ds.update(i, d), a) == donation_sum(ds, a) - donation_contrib(ds[i], a)
                + donation_contrib(d, a),
    decreases ds.len(),
{
    let u = ds.update(i, d);
    if i == 0 {
        assert(u.first() == d);
        assert(u.drop_first() =~= ds.drop_first());
        assert forall|a: Seq<u8>|
            donation_sum(u, a) == donation_sum(ds, a) - donation_contrib(ds[i], a)
                + donation_contrib(d, a) by {
            assert(donation_sum(u.drop_first(), a) == donation_sum(ds.drop_first(), a));
        }
    } else {
        assert(u.first() == ds.first());
        assert(u.drop_first() =~= ds.drop_first().update(i - 1, d));
        lemma_donation_sum_update(ds.drop_first(), i - 1, d);
        assert(ds.drop_first()[i - 1] == ds[i]);
        assert forall|a: Seq<u8>|
            donation_sum(u, a) == donation_sum(ds, a) - donation_contrib(ds[i], a)
                + donation_contrib(d, a) by {
            assert(donation_sum(u.drop_first(), a) == donation_sum(ds.drop_first(), a)
                - donation_contrib(ds[i], a) + donation_contrib(d, a));
        }
    }
}

pub proof fn lemma_donation_sum_push(ds: Seq<Donation>, d: Donation)
    ensures
        forall|a: Seq<u8>|
            donation_sum(ds.push(d), a) == donation_sum(ds, a) + donation_contrib(d, a),
    decreases ds.len(),
{
    let p = ds.push(d);
    if ds.len() == 0 {
        assert(p.first() == d);
        assert(p.drop_first() =~= Seq::<Donation>::empty());
        assert forall|a: Seq<u8>|
            donation_sum(p, a) == donation_sum(ds, a) + donation_contrib(d, a) by {
            assert(donation_sum(p.drop_first(), a) == 0);
        }
    } else {
        assert(p.first() == ds.first());
        assert(p.drop_first() =~= ds.drop_first().push(d));
        lemma_donation_sum_push(ds.drop_first(), d);
        assert forall|a: Seq<u8>|
            donation_sum(p, a) == donation_sum(ds, a) + donation_contrib(d, a) by {
            assert(donation_sum(p.drop_first(), a) == donation_sum(ds.drop_first(), a)
                + donation_contrib(d, a));
        }
    }
}

/// A non-refunded donation's amount is part of its campaign's funding sum.
pub proof fn lemma_donation_le_sum(ds: Seq<Donation>, i: int, a: Seq<u8>)
    requires
        0 <= i < ds.len(),
        ds[i].campaign@ == a,
        !ds[i].refunded,
    ensures
        ds[i].amount <= donation_sum(ds, a),
        0 <= donation_sum(ds, a),
    decreases ds.len(),
{
    if i == 0 {
        lemma_donation_sum_nonneg(ds.drop_first(), a);
    } else {
        lemma_donation_le_sum(ds.drop_first(), i - 1, a);
    }
}

pub proof fn lemma_donation_sum_nonneg(ds: Seq<Donation>, a: Seq<u8>)
    ensures
        0 <= donation_sum(ds, a),
    decreases ds.len(),
{
    if ds.len() > 0 {
        lemma_donation_sum_nonneg(ds.drop_first(), a);
    }
}

/// No donation names the campaign at `a`, so nothing is funded there.
pub proof fn lemma_donation_sum_absent(ds: Seq<Donation>, a: Seq<u8>)
    requires
        forall|k: int| 0 <= k < ds.len() ==> ds[k].campaign@ != a,
    ensures
        donation_sum(ds, a) == 0,
    decreases ds.len(),
{
    if ds.len() > 0 {
        lemma_donation_sum_absent(ds.drop_first(), a);
    }
}

/// Byte-for-byte equality of two addresses.
pub fn bytes_eq(a: &Vec<u8>, b: &Vec<u8>) -> (r: bool)
    ensures
        r == (a@ == b@),
{
    if a.len() != b.len() {
        return false;
    }
    let mut i: usize = 0;
    while i < a.len()
        invariant
            i <= a@.len(),
            a@.len() == b@.len(),
            forall|k: int| 0 <= k < i ==> a@[k] == b@[k],
        decreases a@.len() - i,
    {
        if a[i] != b[i] {
            return false;
        }
        i += 1;
    }
    proof {
        assert(a@ =~= b@);
    }
    true
}

/// The index of the wallet `owner` holds, if any.
pub fn find_wallet(ws: &Vec<Wallet>, owner: u64) -> (r: Option<usize>)
    ensures
        match r {
            Some(i) => i < ws@.len() && ws@[i as int].owner == owner,
            None => forall|k: int| 0 <= k < ws@.len() ==> ws@[k].owner != owner,
        },
{
    let mut i: usize = 0;
    while i < ws.len()
        invariant
            i <= ws@.len(),
            forall|k: int| 0 <= k < i ==> ws@[k].owner != owner,
        decreases ws@.len() - i,
    {
        if ws[i].owner == owner {
            return Some(i);
        }
        i += 1;
    }
    None
}

/// Add `amount` to the wallet of `owner`, opening the wallet if it does not
/// exist yet. The whole of the wallets grows by exactly `amount` and no other
/// owner's balance moves.
pub fn credit_wallet(ws: &mut Vec<Wallet>, owner: u64, amount: u64)
    requires
        distinct_owners(old(ws)@),
        balance_of(old(ws)@, owner) + amount <= u64::MAX,
    ensures
        distinct_owners(final(ws)@),
        balance_of(final(ws)@, owner) == balance_of(old(ws)@, owner) + amount,
        forall|o: u64| o != owner ==> balance_of(final(ws)@, o) == balance_of(old(ws)@, o),
        wallet_sum(final(ws)@) == wallet_sum(old(ws)@) + amount,
{
    match find_wallet(ws, owner) {
        Some(i) => {
            proof {
                lemma_balance_unique(ws@, i as int);
                lemma_wallet_sum_update(ws@, i as int, (Wallet { owner, lamports: (ws@[i as int].lamports + amount) as u64 }));
            }
            let cur = ws[i].lamports;
            ws[i] = Wallet { owner, lamports: cur + amount };
        },
        None => {
            proof {
                lemma_balance_absent(ws@, owner);
                lemma_wallet_sum_push(ws@, (Wallet { owner, lamports: amount }));
            }
            ws.push(Wallet { owner, lamports: amount });
        },
    }
}

/// Take `amount` out of the wallet of `owner`, which must cover it.
pub fn debit_wallet(ws: &mut Vec<Wallet>, owner: u64, amount: u64)
    requires
        distinct_owners(old(ws)@),
        0 < amount <= balance_of(old(ws)@, owner),
    ensures
        distinct_owners(final(ws)@),
        balance_of(final(ws)@, owner) == balance_of(old(ws)@, owner) - amount,
        forall|o: u64| o != owner ==> balance_of(final(ws)@, o) == balance_of(old(ws)@, o),
        wallet_sum(final(ws)@) == wallet_sum(old(ws)@) - amount,
{
    match find_wallet(ws, owner) {
        Some(i) => {
            proof {
                lemma_balance_unique(ws@, i as int);
                lemma_wallet_sum_update(ws@, i as int, (Wallet { owner, lamports: (ws@[i as int].lamports - amount) as u64 }));
            }
            let cur = ws[i].lamports;
            ws[i] = Wallet { owner, lamports: cur - amount };
        },
        None => {
            proof {
                lemma_balance_absent(ws@, owner);
            }
        },
    }
}

} // verus!
