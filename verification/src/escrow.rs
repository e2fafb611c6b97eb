//! The escrow state machine: one counter, the campaigns, their donations,
//! and the wallets of the host ledger, advanced by the five operations of
//! the system. Every operation is atomic: it either applies its whole
//! effect or returns an error and leaves the state untouched. The system
//! invariant ties every campaign's `total_funded` to its recorded
//! donations, ties every escrow balance to the funding it custodies, and
//! conserves value across wallets and escrows.
use vstd::prelude::*;
use crate::derivation::{
    campaign_pda, donation_pda, derive_campaign_address, derive_donation_address,
    reconstruct_campaign_authority,
};
use crate::errors::{CrowdfundingError, Error, LedgerError};
use crate::ledger::{
    balance_of, bytes_eq, credit_wallet, debit_wallet, distinct_owners, donation_contrib,
    donation_sum, escrow_sum, find_wallet, wallet_sum, lemma_balance_absent, lemma_balance_le_sum,
    lemma_balance_unique, lemma_campaign_le_escrow_sum, lemma_donation_le_sum,
    lemma_donation_sum_absent, lemma_donation_sum_push, lemma_donation_sum_update,
    lemma_escrow_sum_nonneg, lemma_escrow_sum_push, lemma_escrow_sum_update,
};
use crate::state::{Campaign, CampaignCounter, Donation, Wallet, campaign_wf, funds_disbursed};

verus! {

/// Longest allowed campaign duration: one year, in seconds.
pub const MAX_CAMPAIGN_DURATION: i64 = 365 * 24 * 60 * 60;

/// The whole system: the singleton counter, every record the program owns,
/// and the external wallets of the host ledger, with the total value ever
/// minted (`supply`) for the conservation argument.
pub struct Crowdfunding {
    pub counter: Option<CampaignCounter>,
    pub campaigns: Vec<Campaign>,
    pub donations: Vec<Donation>,
    pub wallets: Vec<Wallet>,
    pub supply: u64,
}

/// Some existing campaign already sits at the address `a`.
pub open spec fn campaign_address_taken(cs: Seq<Campaign>, a: Seq<u8>) -> bool {
    exists|i: int| 0 <= i < cs.len() && (#[trigger] cs[i]).address@ == a
}

/// A donation for the (campaign, donor) pair already exists.
pub open spec fn donation_slot_taken(ds: Seq<Donation>, addr: Seq<u8>, donor: u64) -> bool {
    exists|k: int|
        0 <= k < ds.len() && (#[trigger] ds[k]).campaign@ == addr && ds[k].donor == donor
}

/// The index of the donation for the (campaign, donor) pair.
pub open spec fn donation_index(ds: Seq<Donation>, addr: Seq<u8>, donor: u64) -> int {
    choose|k: int|
        0 <= k < ds.len() && (#[trigger] ds[k]).campaign@ == addr && ds[k].donor == donor
}

/// Two donation records claim the same derived slot.
pub open spec fn same_donation_slot(d1: Donation, d2: Donation) -> bool {
    d1.campaign@ == d2.campaign@ && d1.donor == d2.donor
}

/// The donation names the address of some existing campaign.
pub open spec fn donation_backed(d: Donation, cs: Seq<Campaign>) -> bool {
    exists|i: int| 0 <= i < cs.len() && (#[trigger] cs[i]).address@ == d.campaign@
}

/// A campaign's funding bookkeeping is consistent with the donation records
/// and with the value its record custodies: `total_funded` is the sum of the
/// non-refunded donations to it, and its escrow holds exactly that, unless
/// the payout branch already moved it out.
pub open spec fn campaign_funds_ok(c: Campaign, ds: Seq<Donation>) -> bool {
    &&& c.total_funded == donation_sum(ds, c.address@)
    &&& c.lamports == if funds_disbursed(c) {
        0int
    } else {
        c.total_funded as int
    }
}

impl Crowdfunding {
    /// The system invariant, established at creation and preserved by every
    /// operation.
    pub open spec fn inv(&self) -> bool {
        &&& (match self.counter {
            Some(ctr) => self.campaigns@.len() == ctr.count,
            None => self.campaigns@.len() == 0,
        })
        &&& (forall|i: int|
            0 <= i < self.campaigns@.len() ==> (#[trigger] self.campaigns@[i]).id == i)
        &&& (forall|i: int, j: int|
            0 <= i < j < self.campaigns@.len() ==> self.campaigns@[i].address@
                != self.campaigns@[j].address@)
        &&& (forall|i: int|
            0 <= i < self.campaigns@.len() ==> campaign_wf(#[trigger] self.campaigns@[i]))
        &&& (forall|i: int|
            0 <= i < self.campaigns@.len() ==> campaign_funds_ok(
                #[trigger] self.campaigns@[i],
                self.donations@,
            ))
        &&& (forall|k: int|
            0 <= k < self.donations@.len() ==> donation_backed(
                #[trigger] self.donations@[k],
                self.campaigns@,
            ))
        &&& (forall|k: int, l: int|
            0 <= k < l < self.donations@.len() ==> !same_donation_slot(
                self.donations@[k],
                self.donations@[l],
            ))
        &&& distinct_owners(self.wallets@)
        &&& wallet_sum(self.wallets@) + escrow_sum(self.campaigns@) == self.supply
    }

    /// An empty system: no counter, no records, no wallets, nothing minted.
    pub fn new() -> (s: Self)
        ensures
            s.inv(),
            s.counter is None,
            s.campaigns@.len() == 0,
            s.donations@.len() == 0,
            s.wallets@.len() == 0,
            s.supply == 0,
    {
        Crowdfunding {
            counter: None,
            campaigns: Vec::new(),
            donations: Vec::new(),
            wallets: Vec::new(),
            supply: 0,
        }
    }

    /// Mint `amount` into the wallet of `owner`, as the host ledger does for
    /// external accounts. Refused only where the minted total would no longer
    /// fit the ledger's unit, which is what keeps every later transfer free
    /// of overflow.
    pub fn airdrop(&mut self, owner: u64, amount: u64) -> (r: bool)
        requires
            old(self).inv(),
        ensures
            final(self).inv(),
            r == (old(self).supply + amount <= u64::MAX),
            (!r ==> *final(self) == *old(self)),
            (r ==> final(self).supply == old(self).supply + amount && balance_of(
                final(self).wallets@,
                owner,
            ) == balance_of(old(self).wallets@, owner) + amount && (forall|o: u64|
                o != owner ==> balance_of(final(self).wallets@, o) == balance_of(
                    old(self).wallets@,
                    o,
                )) && final(self).campaigns == old(self).campaigns && final(self).donations
                == old(self).donations && final(self).counter == old(self).counter),
    {
        if amount > u64::MAX - self.supply {
            return false;
        }
        proof {
            lemma_balance_le_sum(self.wallets@, owner);
            lemma_escrow_sum_nonneg(self.campaigns@);
        }
        credit_wallet(&mut self.wallets, owner, amount);
        self.supply = self.supply + amount;
        true
    }

    /// The balance the host ledger holds for `owner`.
    pub fn wallet_balance(&self, owner: u64) -> (r: u64)
        requires
            self.inv(),
        ensures
            r == balance_of(self.wallets@, owner),
    {
        match find_wallet(&self.wallets, owner) {
            Some(i) => {
                proof {
                    lemma_balance_unique(self.wallets@, i as int);
                }
                self.wallets[i].lamports
            },
            None => {
                proof {
                    lemma_balance_absent(self.wallets@, owner);
                }
                0
            },
        }
    }

    /// Create the singleton counter with `count = 0`. Creating it twice is
    /// refused by the account-creation primitive, never by program logic.
    pub fn initialize_campaign_counter(&mut self, _payer: u64) -> (r: Result<(), Error>)
        requires
            old(self).inv(),
        ensures
            final(self).inv(),
            (old(self).counter is Some ==> r == Err::<(), Error>(
                Error::Ledger(LedgerError::AlreadyInitialized),
            ) && *final(self) == *old(self)),
            (old(self).counter is None ==> r == Ok::<(), Error>(()) && final(self).counter
                == Some((CampaignCounter { count: 0 })) && final(self).campaigns == old(
                self,
            ).campaigns && final(self).donations == old(self).donations && final(self).wallets
                == old(self).wallets && final(self).supply == old(self).supply),
    {
        if self.counter.is_some() {
            return Err(Error::Ledger(LedgerError::AlreadyInitialized));
        }
        self.counter = Some(CampaignCounter { count: 0 });
        Ok(())
    }

    /// Create a new campaign at the address derived from the counter's
    /// current value, and advance the counter by exactly one. The program
    /// rules: a positive goal, a positive duration of at most a year.
    pub fn initialize_campaign(
        &mut self,
        creator: u64,
        goal_amount: u64,
        duration: i64,
        now: i64,
    ) -> (r: Result<(), Error>)
        requires
            old(self).inv(),
            (0 < duration <= MAX_CAMPAIGN_DURATION && goal_amount > 0 ==> now + duration
                <= i64::MAX),
        ensures
            final(self).inv(),
            (spec_initialize_campaign_err(*old(self), goal_amount, duration) matches Some(e) ==> r
                == Err::<(), Error>(e) && *final(self) == *old(self)),
            (spec_initialize_campaign_err(*old(self), goal_amount, duration) is None ==> r
                == Ok::<(), Error>(()) && ({
                let cs = old(self).campaigns@;
                let n = cs.len() as int;
                let nc = final(self).campaigns@[n];
                &&& final(self).campaigns@.len() == n + 1
                &&& (forall|i: int| 0 <= i < n ==> final(self).campaigns@[i] == cs[i])
                &&& nc.creator == creator
                &&& nc.id == n
                &&& nc.goal_amount == goal_amount
                &&& nc.end_time == now + duration
                &&& nc.total_funded == 0
                &&& nc.is_active
                &&& nc.lamports == 0
                &&& campaign_pda(nc.id) == Some((nc.address@, nc.bump))
                &&& final(self).counter == Some((CampaignCounter { count: (n + 1) as u64 }))
                &&& final(self).donations == old(self).donations
                &&& final(self).wallets == old(self).wallets
                &&& final(self).supply == old(self).supply
            })),
    {
        let count = match &self.counter {
            None => {
                return Err(Error::Ledger(LedgerError::AccountNotFound));
            },
            Some(ctr) => ctr.count,
        };
        let (addr, bump) = match derive_campaign_address(count) {
            None => {
                return Err(Error::Ledger(LedgerError::DerivationFailed));
            },
            Some(p) => p,
        };
        if find_campaign_by_address(&self.campaigns, &addr).is_some() {
            return Err(Error::Ledger(LedgerError::AlreadyInitialized));
        }
        if let Err(e) = campaign_params_check(goal_amount, duration) {
            return Err(Error::Crowdfunding(e));
        }
        if count == u64::MAX {
            return Err(Error::Crowdfunding(CrowdfundingError::ArithmeticOverflow));
        }
        let ghost old_cs = self.campaigns@;
        let ghost old_ds = self.donations@;
        let campaign = Campaign {
            creator,
            id: count,
            goal_amount,
            end_time: now + duration,
            total_funded: 0,
            is_active: true,
            bump,
            address: addr,
            lamports: 0,
        };
        proof {
            lemma_escrow_sum_push(self.campaigns@, campaign);
            assert forall|k: int| 0 <= k < old_ds.len() implies old_ds[k].campaign@
                != campaign.address@ by {
                let i = choose|i: int|
                    0 <= i < old_cs.len() && (#[trigger] old_cs[i]).address@ == old_ds[k].campaign@;
                assert(old_cs[i].address@ != campaign.address@);
            }
            lemma_donation_sum_absent(old_ds, campaign.address@);
        }
        self.campaigns.push(campaign);
        self.counter = Some(CampaignCounter { count: count + 1 });
        proof {
            let cs = self.campaigns@;
            assert forall|i: int| 0 <= i < cs.len() implies campaign_funds_ok(
                #[trigger] cs[i],
                self.donations@,
            ) by {
                if i < old_cs.len() {
                    assert(cs[i] == old_cs[i]);
                    assert(campaign_funds_ok(old_cs[i], old_ds));
                }
            }
            assert forall|k: int| 0 <= k < self.donations@.len() implies donation_backed(
                #[trigger] self.donations@[k],
                cs,
            ) by {
                let i = choose|i: int|
                    0 <= i < old_cs.len() && (#[trigger] old_cs[i]).address@
                        == old_ds[k].campaign@;
                assert(cs[i].address@ == self.donations@[k].campaign@);
            }
        }
        Ok(())
    }

    /// Accept a pledge: move `amount` from the donor's wallet into the
    /// campaign's escrow, raise `total_funded` by exactly that, and record
    /// the pledge in a fresh donation at the slot derived from the campaign
    /// and the donor — one slot per (campaign, donor) pair, which is what
    /// limits each donor to a single donation per campaign.
    pub fn donate(&mut self, donor: u64, campaign_id: u64, amount: u64, now: i64) -> (r: Result<
        (),
        Error,
    >)
        requires
            old(self).inv(),
        ensures
            final(self).inv(),
            (spec_donate_err(*old(self), donor, campaign_id, amount, now) matches Some(e) ==> r
                == Err::<(), Error>(e) && *final(self) == *old(self)),
            (spec_donate_err(*old(self), donor, campaign_id, amount, now) is None ==> r == Ok::<
                (),
                Error,
            >(()) && ({
                let ci = campaign_id as int;
                let c = old(self).campaigns@[ci];
                let n = old(self).donations@.len() as int;
                let nd = final(self).donations@[n];
                &&& final(self).campaigns@ == old(self).campaigns@.update(
                    ci,
                    campaign_after_donation(c, amount),
                )
                &&& final(self).donations@.len() == n + 1
                &&& (forall|k: int| 0 <= k < n ==> final(self).donations@[k] == old(
                    self,
                ).donations@[k])
                &&& nd.donor == donor
                &&& nd.campaign@ == c.address@
                &&& nd.amount == amount
                &&& !nd.refunded
                &&& (donation_pda(c.address@, donor) matches Some(p) && nd.bump == p.1)
                &&& balance_of(final(self).wallets@, donor) == balance_of(
                    old(self).wallets@,
                    donor,
                ) - amount
                &&& (forall|o: u64|
                    o != donor ==> balance_of(final(self).wallets@, o) == balance_of(
                        old(self).wallets@,
                        o,
                    ))
                &&& final(self).counter == old(self).counter
                &&& final(self).supply == old(self).supply
            })),
    {
        if campaign_id >= self.campaigns.len() as u64 {
            return Err(Error::Ledger(LedgerError::AccountNotFound));
        }
        let ci = campaign_id as usize;
        let dbump = match derive_donation_address(&self.campaigns[ci].address, donor) {
            None => {
                return Err(Error::Ledger(LedgerError::DerivationFailed));
            },
            Some(p) => p.1,
        };
        if find_donation(&self.donations, &self.campaigns[ci].address, donor).is_some() {
            return Err(Error::Ledger(LedgerError::AlreadyInitialized));
        }
        if let Err(e) = donate_checks(&self.campaigns[ci], amount, now) {
            return Err(Error::Crowdfunding(e));
        }
        if self.wallet_balance(donor) < amount {
            return Err(Error::Ledger(LedgerError::InsufficientFunds));
        }
        let c_total = self.campaigns[ci].total_funded;
        if amount > u64::MAX - c_total {
            return Err(Error::Crowdfunding(CrowdfundingError::ArithmeticOverflow));
        }
        let ghost old_cs = self.campaigns@;
        let ghost old_ds = self.donations@;
        let ghost cii: int = ci as int;
        proof {
            assert(campaign_funds_ok(old_cs[cii], old_ds));
        }
        debit_wallet(&mut self.wallets, donor, amount);
        let c_lam = self.campaigns[ci].lamports;
        self.campaigns[ci].total_funded = c_total + amount;
        self.campaigns[ci].lamports = c_lam + amount;
        let addr_copy = clone_bytes(&self.campaigns[ci].address);
        let nd = Donation { donor, campaign: addr_copy, amount, refunded: false, bump: dbump };
        let ghost c2 = campaign_after_donation(old_cs[cii], amount);
        proof {
            assert(self.campaigns@ =~= old_cs.update(cii, c2));
            lemma_escrow_sum_update(old_cs, cii, c2);
            lemma_donation_sum_push(old_ds, nd);
        }
        self.donations.push(nd);
        proof {
            let cs2 = self.campaigns@;
            let ds2 = self.donations@;
            assert forall|i: int| 0 <= i < cs2.len() implies campaign_funds_ok(
                #[trigger] cs2[i],
                ds2,
            ) by {
                assert(campaign_funds_ok(old_cs[i], old_ds));
                if i == cii {
                    assert(donation_contrib(nd, c2.address@) == amount as int);
                } else {
                    if i < cii {
                        assert(old_cs[i].address@ != old_cs[cii].address@);
                    } else {
                        assert(old_cs[cii].address@ != old_cs[i].address@);
                    }
                    assert(donation_contrib(nd, cs2[i].address@) == 0);
                }
            }
            assert forall|k: int| 0 <= k < ds2.len() implies donation_backed(
                #[trigger] ds2[k],
                cs2,
            ) by {
                if k < old_ds.len() {
                    let i = choose|i: int|
                        0 <= i < old_cs.len() && (#[trigger] old_cs[i]).address@
                            == old_ds[k].campaign@;
                    assert(cs2[i].address@ == old_cs[i].address@);
                } else {
                    assert(cs2[cii].address@ == nd.campaign@);
                }
            }
        }
        Ok(())
    }

    /// Close a campaign once its deadline has passed: if the goal was met
    /// while it was still active, move the whole funded balance out of the
    /// escrow to the creator; either way the campaign is permanently
    /// deactivated. The payout is guarded by `is_active`, so a second
    /// finalization can never move value again, and it is authorized by
    /// re-deriving the campaign's address from its id and stored bump.
    pub fn finalize_campaign(&mut self, creator: u64, campaign_id: u64, now: i64) -> (r: Result<
        (),
        Error,
    >)
        requires
            old(self).inv(),
        ensures
            final(self).inv(),
            (spec_finalize_err(*old(self), creator, campaign_id, now) matches Some(e) ==> r
                == Err::<(), Error>(e) && *final(self) == *old(self)),
            (spec_finalize_err(*old(self), creator, campaign_id, now) is None ==> r == Ok::<
                (),
                Error,
            >(()) && ({
                let ci = campaign_id as int;
                let c = old(self).campaigns@[ci];
                &&& final(self).campaigns@ == old(self).campaigns@.update(
                    ci,
                    campaign_after_finalize(c),
                )
                &&& !final(self).campaigns@[ci].is_active
                &&& balance_of(final(self).wallets@, creator) == balance_of(
                    old(self).wallets@,
                    creator,
                ) + finalize_payout(c)
                &&& (forall|o: u64|
                    o != creator ==> balance_of(final(self).wallets@, o) == balance_of(
                        old(self).wallets@,
                        o,
                    ))
                &&& final(self).donations == old(self).donations
                &&& final(self).counter == old(self).counter
                &&& final(self).supply == old(self).supply
            })),
    {
        if campaign_id >= self.campaigns.len() as u64 {
            return Err(Error::Ledger(LedgerError::AccountNotFound));
        }
        let ci = campaign_id as usize;
        if self.campaigns[ci].creator != creator {
            return Err(Error::Crowdfunding(CrowdfundingError::Unauthorized));
        }
        if now < self.campaigns[ci].end_time {
            return Err(Error::Crowdfunding(CrowdfundingError::CampaignNotEnded));
        }
        let ghost old_cs = self.campaigns@;
        let ghost old_ds = self.donations@;
        let ghost cii: int = ci as int;
        proof {
            assert(campaign_funds_ok(old_cs[cii], old_ds));
            assert(campaign_wf(old_cs[cii]));
        }
        if self.campaigns[ci].is_active && self.campaigns[ci].total_funded
            >= self.campaigns[ci].goal_amount {
            let auth = reconstruct_campaign_authority(
                self.campaigns[ci].id,
                self.campaigns[ci].bump,
            );
            let authorized = match auth {
                Some(a) => bytes_eq(&a, &self.campaigns[ci].address),
                None => false,
            };
            if !authorized {
                // Unreachable for a well-formed campaign: the stored bump
                // always reconstructs the stored address.
                return Err(Error::Crowdfunding(CrowdfundingError::Unauthorized));
            }
            let amt = self.campaigns[ci].total_funded;
            proof {
                lemma_balance_le_sum(self.wallets@, creator);
                lemma_campaign_le_escrow_sum(old_cs, cii);
            }
            credit_wallet(&mut self.wallets, creator, amt);
            self.campaigns[ci].lamports = 0;
        }
        self.campaigns[ci].is_active = false;
        let ghost c2 = campaign_after_finalize(old_cs[cii]);
        proof {
            assert(self.campaigns@ =~= old_cs.update(cii, c2));
            lemma_escrow_sum_update(old_cs, cii, c2);
            let cs2 = self.campaigns@;
            assert forall|i: int| 0 <= i < cs2.len() implies campaign_funds_ok(
                #[trigger] cs2[i],
                old_ds,
            ) by {
                assert(campaign_funds_ok(old_cs[i], old_ds));
            }
            assert forall|k: int| 0 <= k < old_ds.len() implies donation_backed(
                #[trigger] old_ds[k],
                cs2,
            ) by {
                let i = choose|i: int|
                    0 <= i < old_cs.len() && (#[trigger] old_cs[i]).address@
                        == old_ds[k].campaign@;
                assert(cs2[i].address@ == old_cs[i].address@);
            }
        }
        Ok(())
    }

    /// Give a donation back: only once the campaign is closed and only where
    /// the goal was missed, move the donated amount from the escrow back to
    /// the donor, lower `total_funded` by it (saturating), and mark the
    /// donation refunded, permanently. Authorized the same way as the
    /// payout: by re-deriving the campaign's address from id and bump.
    pub fn refund(&mut self, donor: u64, campaign_id: u64) -> (r: Result<(), Error>)
        requires
            old(self).inv(),
        ensures
            final(self).inv(),
            (spec_refund_err(*old(self), donor, campaign_id) matches Some(e) ==> r == Err::<
                (),
                Error,
            >(e) && *final(self) == *old(self)),
            (spec_refund_err(*old(self), donor, campaign_id) is None ==> r == Ok::<(), Error>(())
                && ({
                let ci = campaign_id as int;
                let c = old(self).campaigns@[ci];
                let di = donation_index(old(self).donations@, c.address@, donor);
                let d = old(self).donations@[di];
                &&& final(self).campaigns@ == old(self).campaigns@.update(
                    ci,
                    campaign_after_refund(c, d.amount),
                )
                &&& final(self).donations@ == old(self).donations@.update(
                    di,
                    donation_after_refund(d),
                )
                &&& balance_of(final(self).wallets@, donor) == balance_of(
                    old(self).wallets@,
                    donor,
                ) + d.amount
                &&& (forall|o: u64|
                    o != donor ==> balance_of(final(self).wallets@, o) == balance_of(
                        old(self).wallets@,
                        o,
                    ))
                &&& final(self).counter == old(self).counter
                &&& final(self).supply == old(self).supply
            })),
    {
        if campaign_id >= self.campaigns.len() as u64 {
            return Err(Error::Ledger(LedgerError::AccountNotFound));
        }
        let ci = campaign_id as usize;
        let di = match find_donation(&self.donations, &self.campaigns[ci].address, donor) {
            None => {
                return Err(Error::Ledger(LedgerError::AccountNotFound));
            },
            Some(i) => i,
        };
        let ghost old_cs = self.campaigns@;
        let ghost old_ds = self.donations@;
        let ghost cii: int = ci as int;
        let ghost dii: int = di as int;
        let ghost addr = old_cs[cii].address@;
        proof {
            assert(donation_slot_taken(old_ds, addr, donor));
            let k = donation_index(old_ds, addr, donor);
            if k != dii {
                assert(same_donation_slot(old_ds[if k < dii {
                    k
                } else {
                    dii
                }], old_ds[if k < dii {
                    dii
                } else {
                    k
                }]));
            }
            assert(k == dii);
        }
        if let Err(e) = refund_checks(&self.campaigns[ci], &self.donations[di], donor) {
            return Err(Error::Crowdfunding(e));
        }
        proof {
            assert(campaign_funds_ok(old_cs[cii], old_ds));
            assert(campaign_wf(old_cs[cii]));
        }
        let auth = reconstruct_campaign_authority(self.campaigns[ci].id, self.campaigns[ci].bump);
        let authorized = match auth {
            Some(a) => bytes_eq(&a, &self.campaigns[ci].address),
            None => false,
        };
        if !authorized {
            // Unreachable for a well-formed campaign: the stored bump always
            // reconstructs the stored address.
            return Err(Error::Crowdfunding(CrowdfundingError::Unauthorized));
        }
        let amt = self.donations[di].amount;
        proof {
            lemma_donation_le_sum(old_ds, dii, addr);
            lemma_balance_le_sum(self.wallets@, donor);
            lemma_campaign_le_escrow_sum(old_cs, cii);
        }
        credit_wallet(&mut self.wallets, donor, amt);
        let c_lam = self.campaigns[ci].lamports;
        self.campaigns[ci].lamports = c_lam - amt;
        let cur_total = self.campaigns[ci].total_funded;
        let new_total = if amt > cur_total {
            0
        } else {
            cur_total - amt
        };
        self.campaigns[ci].total_funded = new_total;
        self.donations[di].refunded = true;
        let ghost c2 = campaign_after_refund(old_cs[cii], amt);
        let ghost d2 = donation_after_refund(old_ds[dii]);
        proof {
            assert(self.campaigns@ =~= old_cs.update(cii, c2));
            assert(self.donations@ =~= old_ds.update(dii, d2));
            lemma_escrow_sum_update(old_cs, cii, c2);
            lemma_donation_sum_update(old_ds, dii, d2);
            let cs2 = self.campaigns@;
            let ds2 = self.donations@;
            assert forall|i: int| 0 <= i < cs2.len() implies campaign_funds_ok(
                #[trigger] cs2[i],
                ds2,
            ) by {
                assert(campaign_funds_ok(old_cs[i], old_ds));
                if i != cii {
                    if i < cii {
                        assert(old_cs[i].address@ != old_cs[cii].address@);
                    } else {
                        assert(old_cs[cii].address@ != old_cs[i].address@);
                    }
                    assert(donation_contrib(old_ds[dii], cs2[i].address@) == 0);
                    assert(donation_contrib(d2, cs2[i].address@) == 0);
                }
            }
            assert forall|k: int| 0 <= k < ds2.len() implies donation_backed(
                #[trigger] ds2[k],
                cs2,
            ) by {
                let w = choose|i: int|
                    0 <= i < old_cs.len() && (#[trigger] old_cs[i]).address@
                        == old_ds[k].campaign@;
                assert(cs2[w].address@ == old_cs[w].address@);
                assert(ds2[k].campaign@ == old_ds[k].campaign@);
            }
            assert forall|k: int, l: int| 0 <= k < l < ds2.len() implies !same_donation_slot(
                ds2[k],
                ds2[l],
            ) by {
                assert(!same_donation_slot(old_ds[k], old_ds[l]));
                assert(ds2[k].campaign@ == old_ds[k].campaign@ && ds2[k].donor == old_ds[k].donor);
                assert(ds2[l].campaign@ == old_ds[l].campaign@ && ds2[l].donor == old_ds[l].donor);
            }
        }
        Ok(())
    }
}

/// Why finalization fails, in the order the host and the program apply
/// their checks: the campaign account is resolved, the caller must be its
/// creator, and the deadline must have passed.
pub open spec fn spec_finalize_err(
    s: Crowdfunding,
    creator: u64,
    campaign_id: u64,
    now: i64,
) -> Option<Error> {
    if campaign_id >= s.campaigns@.len() {
        Some(Error::Ledger(LedgerError::AccountNotFound))
    } else {
        let c = s.campaigns@[campaign_id as int];
        if c.creator != creator {
            Some(Error::Crowdfunding(CrowdfundingError::Unauthorized))
        } else if now < c.end_time {
            Some(Error::Crowdfunding(CrowdfundingError::CampaignNotEnded))
        } else {
            None
        }
    }
}

/// Whether finalization takes the payout branch: only an active campaign
/// that met its goal pays out, which is exactly what makes a second
/// finalization harmless.
pub open spec fn finalize_pays(c: Campaign) -> bool {
    c.is_active && c.total_funded >= c.goal_amount
}

/// How much finalization moves to the creator.
pub open spec fn finalize_payout(c: Campaign) -> u64 {
    if finalize_pays(c) {
        c.total_funded
    } else {
        0
    }
}

/// The campaign as finalization leaves it: deactivated, and emptied of its
/// escrow where the payout branch ran.
pub open spec fn campaign_after_finalize(c: Campaign) -> Campaign {
    Campaign {
        creator: c.creator,
        id: c.id,
        goal_amount: c.goal_amount,
        end_time: c.end_time,
        total_funded: c.total_funded,
        is_active: false,
        bump: c.bump,
        address: c.address,
        lamports: if finalize_pays(c) {
            0u64
        } else {
            c.lamports
        },
    }
}

/// The refund rules, in the order the state machine applies them: the
/// campaign must be closed, must have missed its goal, the donation must
/// belong to the caller and must not have been refunded before.
pub open spec fn spec_refund_checks(c: Campaign, d: Donation, donor: u64) -> Result<
    (),
    CrowdfundingError,
> {
    if c.is_active {
        Err(CrowdfundingError::CampaignIsStillActive)
    } else if c.total_funded >= c.goal_amount {
        Err(CrowdfundingError::CampaignSuccessful)
    } else if d.donor != donor {
        Err(CrowdfundingError::InvalidDonor)
    } else if d.refunded {
        Err(CrowdfundingError::AlreadyRefunded)
    } else {
        Ok(())
    }
}

/// Validate a refund of `d` against its campaign, claimed by `donor`.
pub fn refund_checks(c: &Campaign, d: &Donation, donor: u64) -> (r: Result<(), CrowdfundingError>)
    ensures
        r == spec_refund_checks(*c, *d, donor),
{
    if c.is_active {
        Err(CrowdfundingError::CampaignIsStillActive)
    } else if c.total_funded >= c.goal_amount {
        Err(CrowdfundingError::CampaignSuccessful)
    } else if d.donor != donor {
        Err(CrowdfundingError::InvalidDonor)
    } else if d.refunded {
        Err(CrowdfundingError::AlreadyRefunded)
    } else {
        Ok(())
    }
}

/// Why a refund fails: the campaign and the caller's donation are resolved
/// first, then the program rules run.
pub open spec fn spec_refund_err(s: Crowdfunding, donor: u64, campaign_id: u64) -> Option<Error> {
    if campaign_id >= s.campaigns@.len() {
        Some(Error::Ledger(LedgerError::AccountNotFound))
    } else {
        let c = s.campaigns@[campaign_id as int];
        if !donation_slot_taken(s.donations@, c.address@, donor) {
            Some(Error::Ledger(LedgerError::AccountNotFound))
        } else {
            let d = s.donations@[donation_index(s.donations@, c.address@, donor)];
            match spec_refund_checks(c, d, donor) {
                Err(e) => Some(Error::Crowdfunding(e)),
                Ok(_) => None,
            }
        }
    }
}

/// The campaign as a refund of `amount` leaves it: funding lowered by the
/// amount, saturating at zero, and that much less in escrow.
pub open spec fn campaign_after_refund(c: Campaign, amount: u64) -> Campaign {
    Campaign {
        creator: c.creator,
        id: c.id,
        goal_amount: c.goal_amount,
        end_time: c.end_time,
        total_funded: if amount > c.total_funded {
            0u64
        } else {
            (c.total_funded - amount) as u64
        },
        is_active: c.is_active,
        bump: c.bump,
        address: c.address,
        lamports: if amount > c.lamports {
            0u64
        } else {
            (c.lamports - amount) as u64
        },
    }
}

/// The donation as its refund leaves it: marked refunded, nothing else
/// moved.
pub open spec fn donation_after_refund(d: Donation) -> Donation {
    Donation { donor: d.donor, campaign: d.campaign, amount: d.amount, refunded: true, bump: d.bump }
}

/// Why creating a campaign fails, in the order the host and the program
/// apply their checks: account resolution and allocation first, then the
/// program's own rules.
pub open spec fn spec_initialize_campaign_err(
    s: Crowdfunding,
    goal_amount: u64,
    duration: i64,
) -> Option<Error> {
    match s.counter {
        None => Some(Error::Ledger(LedgerError::AccountNotFound)),
        Some(ctr) => match campaign_pda(ctr.count) {
            None => Some(Error::Ledger(LedgerError::DerivationFailed)),
            Some(p) => if campaign_address_taken(s.campaigns@, p.0) {
                Some(Error::Ledger(LedgerError::AlreadyInitialized))
            } else {
                match spec_campaign_params_check(goal_amount, duration) {
                    Err(e) => Some(Error::Crowdfunding(e)),
                    Ok(_) => if ctr.count == u64::MAX {
                        Some(Error::Crowdfunding(CrowdfundingError::ArithmeticOverflow))
                    } else {
                        None
                    },
                }
            },
        },
    }
}

/// The validation rules a new campaign's parameters must pass, in the order
/// the state machine applies them.
pub open spec fn spec_campaign_params_check(goal_amount: u64, duration: i64) -> Result<
    (),
    CrowdfundingError,
> {
    if duration > MAX_CAMPAIGN_DURATION {
        Err(CrowdfundingError::DurationTooLong)
    } else if goal_amount == 0 {
        Err(CrowdfundingError::InvalidGoalAmount)
    } else if duration <= 0 {
        Err(CrowdfundingError::InvalidDuration)
    } else {
        Ok(())
    }
}

/// Validate a new campaign's parameters.
pub fn campaign_params_check(goal_amount: u64, duration: i64) -> (r: Result<
    (),
    CrowdfundingError,
>)
    ensures
        r == spec_campaign_params_check(goal_amount, duration),
{
    if duration > MAX_CAMPAIGN_DURATION {
        Err(CrowdfundingError::DurationTooLong)
    } else if goal_amount == 0 {
        Err(CrowdfundingError::InvalidGoalAmount)
    } else if duration <= 0 {
        Err(CrowdfundingError::InvalidDuration)
    } else {
        Ok(())
    }
}

/// The program rules a donation must pass, in the order the state machine
/// applies them: an active campaign, a deadline strictly in the future, a
/// positive amount.
pub open spec fn spec_donate_checks(c: Campaign, amount: u64, now: i64) -> Result<
    (),
    CrowdfundingError,
> {
    if !c.is_active {
        Err(CrowdfundingError::CampaignInactive)
    } else if now >= c.end_time {
        Err(CrowdfundingError::CampaignEnded)
    } else if amount == 0 {
        Err(CrowdfundingError::InvalidAmount)
    } else {
        Ok(())
    }
}

/// Validate a donation against the campaign it targets.
pub fn donate_checks(c: &Campaign, amount: u64, now: i64) -> (r: Result<(), CrowdfundingError>)
    ensures
        r == spec_donate_checks(*c, amount, now),
{
    if !c.is_active {
        Err(CrowdfundingError::CampaignInactive)
    } else if now >= c.end_time {
        Err(CrowdfundingError::CampaignEnded)
    } else if amount == 0 {
        Err(CrowdfundingError::InvalidAmount)
    } else {
        Ok(())
    }
}

/// Why a donation fails, in the order the host and the program apply their
/// checks: account resolution and allocation first, then the program rules,
/// then the donor's own transfer, then the funding-total arithmetic.
pub open spec fn spec_donate_err(
    s: Crowdfunding,
    donor: u64,
    campaign_id: u64,
    amount: u64,
    now: i64,
) -> Option<Error> {
    if campaign_id >= s.campaigns@.len() {
        Some(Error::Ledger(LedgerError::AccountNotFound))
    } else {
        let c = s.campaigns@[campaign_id as int];
        if donation_pda(c.address@, donor) is None {
            Some(Error::Ledger(LedgerError::DerivationFailed))
        } else if donation_slot_taken(s.donations@, c.address@, donor) {
            Some(Error::Ledger(LedgerError::AlreadyInitialized))
        } else {
            match spec_donate_checks(c, amount, now) {
                Err(e) => Some(Error::Crowdfunding(e)),
                Ok(_) => if balance_of(s.wallets@, donor) < amount {
                    Some(Error::Ledger(LedgerError::InsufficientFunds))
                } else if c.total_funded + amount > u64::MAX {
                    Some(Error::Crowdfunding(CrowdfundingError::ArithmeticOverflow))
                } else {
                    None
                },
            }
        }
    }
}

/// The campaign as a donation of `amount` leaves it: funded and custodying
/// that much more.
pub open spec fn campaign_after_donation(c: Campaign, amount: u64) -> Campaign {
    Campaign {
        creator: c.creator,
        id: c.id,
        goal_amount: c.goal_amount,
        end_time: c.end_time,
        total_funded: (c.total_funded + amount) as u64,
        is_active: c.is_active,
        bump: c.bump,
        address: c.address,
        lamports: (c.lamports + amount) as u64,
    }
}

/// A byte-for-byte copy of an address.
pub fn clone_bytes(a: &Vec<u8>) -> (r: Vec<u8>)
    ensures
        r@ == a@,
{
    let mut r: Vec<u8> = Vec::new();
    let mut i: usize = 0;
    while i < a.len()
        invariant
            i <= a@.len(),
            r@ == a@.subrange(0, i as int),
        decreases a@.len() - i,
    {
        r.push(a[i]);
        proof {
            assert(r@ =~= a@.subrange(0, i + 1));
        }
        i += 1;
    }
    proof {
        assert(r@ =~= a@);
    }
    r
}

/// The index of the donation for the (campaign, donor) pair, if it exists.
pub fn find_donation(ds: &Vec<Donation>, addr: &Vec<u8>, donor: u64) -> (r: Option<usize>)
    ensures
        (match r {
            Some(i) => i < ds@.len() && ds@[i as int].campaign@ == addr@ && ds@[i as int].donor
                == donor,
            None => forall|k: int|
                0 <= k < ds@.len() ==> !(ds@[k].campaign@ == addr@ && ds@[k].donor == donor),
        }),
{
    let mut i: usize = 0;
    while i < ds.len()
        invariant
            i <= ds@.len(),
            forall|k: int| 0 <= k < i ==> !(ds@[k].campaign@ == addr@ && ds@[k].donor == donor),
        decreases ds@.len() - i,
    {
        if ds[i].donor == donor && bytes_eq(&ds[i].campaign, addr) {
            return Some(i);
        }
        i += 1;
    }
    None
}

/// The index of the campaign that sits at `addr`, if any.
pub fn find_campaign_by_address(cs: &Vec<Campaign>, addr: &Vec<u8>) -> (r: Option<usize>)
    ensures
        (match r {
            Some(i) => i < cs@.len() && cs@[i as int].address@ == addr@,
            None => forall|k: int| 0 <= k < cs@.len() ==> cs@[k].address@ != addr@,
        }),
{
    let mut i: usize = 0;
    while i < cs.len()
        invariant
            i <= cs@.len(),
            forall|k: int| 0 <= k < i ==> cs@[k].address@ != addr@,
        decreases cs@.len() - i,
    {
        if bytes_eq(&cs[i].address, addr) {
            return Some(i);
        }
        i += 1;
    }
    None
}

} // verus!
