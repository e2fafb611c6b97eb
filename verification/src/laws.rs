//! The guarantees of the escrow, stated on their own and proved from the
//! system invariant and the operations' spec-level transitions.
use vstd::prelude::*;
use crate::errors::CrowdfundingError;
use crate::escrow::{
    Crowdfunding, campaign_after_donation, campaign_after_finalize, campaign_after_refund,
    campaign_funds_ok, donation_after_refund, finalize_payout, spec_donate_checks,
    spec_refund_checks,
};
use crate::ledger::{donation_sum, escrow_sum, wallet_sum};
use crate::state::{Campaign, Donation, funds_disbursed};

verus! {

/// Whatever sequence of donations and refunds has run, every campaign's
/// `total_funded` equals the sum of the amounts of its non-refunded
/// donations.
pub proof fn lemma_funding_matches_donations(s: Crowdfunding, i: int)
    requires
        s.inv(),
        0 <= i < s.campaigns@.len(),
    ensures
        s.campaigns@[i].total_funded == donation_sum(s.donations@, s.campaigns@[i].address@),
{
    assert(campaign_funds_ok(s.campaigns@[i], s.donations@));
}

/// An escrow covers its obligations: until the payout branch runs, a
/// campaign's record custodies exactly what was funded, and afterwards it
/// is empty.
pub proof fn lemma_escrow_covers_funding(s: Crowdfunding, i: int)
    requires
        s.inv(),
        0 <= i < s.campaigns@.len(),
    ensures
        (!funds_disbursed(s.campaigns@[i]) ==> s.campaigns@[i].lamports == s.campaigns@[
            i
        ].total_funded),
        (funds_disbursed(s.campaigns@[i]) ==> s.campaigns@[i].lamports == 0),
{
    assert(campaign_funds_ok(s.campaigns@[i], s.donations@));
}

/// Finalization always ends with the campaign inactive, and its payout
/// branch moves value at most once: finalizing an already finalized
/// campaign pays nothing and leaves its escrow untouched.
pub proof fn lemma_finalize_pays_at_most_once(c: Campaign)
    ensures
        !campaign_after_finalize(c).is_active,
        finalize_payout(campaign_after_finalize(c)) == 0,
        campaign_after_finalize(campaign_after_finalize(c)) == campaign_after_finalize(c),
{
}

/// A refund is one-shot: after a donation is refunded, refunding it again
/// is rejected with `AlreadyRefunded`, whatever else the first refund
/// changed about the campaign.
pub proof fn lemma_refund_is_one_shot(c: Campaign, d: Donation, donor: u64)
    requires
        spec_refund_checks(c, d, donor) is Ok,
    ensures
        spec_refund_checks(campaign_after_refund(c, d.amount), donation_after_refund(d), donor)
            == Err::<(), CrowdfundingError>(CrowdfundingError::AlreadyRefunded),
{
}

/// A donation attempted exactly at the deadline is rejected: acceptance
/// requires the current time to be strictly before `end_time`.
pub proof fn lemma_donate_at_deadline_rejected(c: Campaign, amount: u64)
    requires
        c.is_active,
    ensures
        spec_donate_checks(c, amount, c.end_time) == Err::<(), CrowdfundingError>(
            CrowdfundingError::CampaignEnded,
        ),
{
}

/// Campaign ids are the counter's history: there are exactly as many
/// campaigns as the counter has counted, and the i-th holds id i — no gaps
/// and no duplicates.
pub proof fn lemma_campaign_ids_sequential(s: Crowdfunding)
    requires
        s.inv(),
    ensures
        (s.counter matches Some(ctr) ==> s.campaigns@.len() == ctr.count),
        (s.counter is None ==> s.campaigns@.len() == 0),
        forall|i: int| 0 <= i < s.campaigns@.len() ==> (#[trigger] s.campaigns@[i]).id == i,
        forall|i: int, j: int|
            0 <= i < j < s.campaigns@.len() ==> s.campaigns@[i].id != s.campaigns@[j].id,
{
    assert forall|i: int, j: int|
        0 <= i < j < s.campaigns@.len() implies s.campaigns@[i].id != s.campaigns@[j].id by {
        assert(s.campaigns@[i].id == i);
        assert(s.campaigns@[j].id == j);
    }
}

/// At most one donation record exists per (campaign, donor) pair.
pub proof fn lemma_one_donation_per_donor(s: Crowdfunding, k: int, l: int)
    requires
        s.inv(),
        0 <= k < l < s.donations@.len(),
    ensures
        !(s.donations@[k].campaign@ == s.donations@[l].campaign@ && s.donations@[k].donor
            == s.donations@[l].donor),
{
    assert(!crate::escrow::same_donation_slot(s.donations@[k], s.donations@[l]));
}

/// Deactivation is permanent: no transition of the state machine raises the
/// activity flag of an inactive campaign again.
pub proof fn lemma_deactivation_is_permanent(c: Campaign, amount: u64)
    requires
        !c.is_active,
    ensures
        !campaign_after_donation(c, amount).is_active,
        !campaign_after_finalize(c).is_active,
        !campaign_after_refund(c, amount).is_active,
{
}

/// Value is conserved: the wallets and the escrows together hold exactly
/// the supply the ledger ever minted, so no operation creates or destroys
/// value.
pub proof fn lemma_value_conserved(s: Crowdfunding)
    requires
        s.inv(),
    ensures
        wallet_sum(s.wallets@) + escrow_sum(s.campaigns@) == s.supply,
{
}

} // verus!
