//! The three persistent records of the escrow, plus the wallets of the host
//! ledger that donations are paid from and payouts are paid to.
use vstd::prelude::*;
use crate::derivation::{campaign_pda, campaign_authority};

verus! {

/// Singleton sequence generator: the next campaign id to assign.
pub struct CampaignCounter {
    pub count: u64,
}

/// A funding goal with a deadline. The record custodies the pledged value
/// itself (`lamports`), and its address is derived from its id, with the
/// bump stored so the address can be reconstructed as proof of authority.
pub struct Campaign {
    /// Who created the campaign and receives the payout; immutable.
    pub creator: u64,
    /// Identity assigned from the counter at creation; immutable.
    pub id: u64,
    /// The funding target; positive, immutable.
    pub goal_amount: u64,
    /// Donations are accepted strictly before this time; immutable.
    pub end_time: i64,
    /// Sum of the non-refunded donations made to this campaign.
    pub total_funded: u64,
    /// True from creation until finalization, then permanently false.
    pub is_active: bool,
    /// The uniqueness nonce recorded for later re-derivation.
    pub bump: u8,
    /// The record's derived address, its identity on the ledger.
    pub address: Vec<u8>,
    /// The value the record custodies in escrow.
    pub lamports: u64,
}

/// An immutable pledge: one record per (campaign, donor) pair.
pub struct Donation {
    /// Who pledged; immutable.
    pub donor: u64,
    /// The derived address of the campaign pledged to; immutable.
    pub campaign: Vec<u8>,
    /// How much was pledged; fixed at creation.
    pub amount: u64,
    /// Flips to true at most once, permanently.
    pub refunded: bool,
    /// The uniqueness nonce of this record's own derived address.
    pub bump: u8,
}

/// An externally owned account on the host ledger.
pub struct Wallet {
    pub owner: u64,
    pub lamports: u64,
}

/// A campaign's stored identity is the one its id derives: its address and
/// bump came out of derivation, its goal is positive, and re-deriving the
/// address from id and bump gives the address back, so the system can always
/// prove its authority over the record's escrow.
pub open spec fn campaign_wf(c: Campaign) -> bool {
    &&& c.goal_amount > 0
    &&& campaign_pda(c.id) == Some((c.address@, c.bump))
    &&& campaign_authority(c.id, c.bump) == Some(c.address@)
}

/// The payout branch already ran: the campaign was finalized with its goal
/// met, so its escrow was moved to the creator. Not stored anywhere; it is
/// re-derived from the record, which is possible because `total_funded` only
/// grows while the campaign is active and only shrinks below the goal.
pub open spec fn funds_disbursed(c: Campaign) -> bool {
    !c.is_active && c.total_funded >= c.goal_amount
}

} // verus!
