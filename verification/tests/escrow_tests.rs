use crowdfunding::errors::{CrowdfundingError, Error, LedgerError};
use crowdfunding::escrow::{campaign_params_check, refund_checks, Crowdfunding, MAX_CAMPAIGN_DURATION};
use crowdfunding::state::{Campaign, Donation};

const CREATOR: u64 = 10;
const DONOR: u64 = 50;
const PAYER: u64 = 1;

fn funded_system(initial: u64) -> Crowdfunding {
    let mut s = Crowdfunding::new();
    assert!(s.airdrop(DONOR, initial));
    assert!(s.initialize_campaign_counter(PAYER).is_ok());
    s
}

#[test]
fn counter_starts_at_zero() {
    let mut s = Crowdfunding::new();
    assert!(s.initialize_campaign_counter(PAYER).is_ok());
    assert_eq!(s.counter.as_ref().unwrap().count, 0);
}

#[test]
fn counter_cannot_be_initialized_twice() {
    let mut s = Crowdfunding::new();
    assert!(s.initialize_campaign_counter(PAYER).is_ok());
    assert_eq!(
        s.initialize_campaign_counter(PAYER),
        Err(Error::Ledger(LedgerError::AlreadyInitialized))
    );
}

#[test]
fn campaign_needs_the_counter() {
    let mut s = Crowdfunding::new();
    assert_eq!(
        s.initialize_campaign(CREATOR, 1000, 100, 0),
        Err(Error::Ledger(LedgerError::AccountNotFound))
    );
}

#[test]
fn campaign_creation_sets_every_field() {
    let mut s = funded_system(2000);
    assert!(s.initialize_campaign(CREATOR, 1000, 100, 5).is_ok());
    let c = &s.campaigns[0];
    assert_eq!(c.creator, CREATOR);
    assert_eq!(c.id, 0);
    assert_eq!(c.goal_amount, 1000);
    assert_eq!(c.end_time, 105);
    assert_eq!(c.total_funded, 0);
    assert!(c.is_active);
    assert_eq!(c.lamports, 0);
    assert_eq!(s.counter.as_ref().unwrap().count, 1);
}

#[test]
fn campaign_rejects_zero_goal() {
    let mut s = funded_system(2000);
    assert_eq!(
        s.initialize_campaign(CREATOR, 0, 100, 0),
        Err(Error::Crowdfunding(CrowdfundingError::InvalidGoalAmount))
    );
}

#[test]
fn campaign_rejects_nonpositive_duration() {
    let mut s = funded_system(2000);
    assert_eq!(
        s.initialize_campaign(CREATOR, 1000, 0, 0),
        Err(Error::Crowdfunding(CrowdfundingError::InvalidDuration))
    );
    assert_eq!(
        s.initialize_campaign(CREATOR, 1000, -5, 0),
        Err(Error::Crowdfunding(CrowdfundingError::InvalidDuration))
    );
}

#[test]
fn campaign_rejects_overlong_duration() {
    let mut s = funded_system(2000);
    assert_eq!(
        s.initialize_campaign(CREATOR, 1000, MAX_CAMPAIGN_DURATION + 1, 0),
        Err(Error::Crowdfunding(CrowdfundingError::DurationTooLong))
    );
    assert!(s.initialize_campaign(CREATOR, 1000, MAX_CAMPAIGN_DURATION, 0).is_ok());
}

#[test]
fn duration_check_precedes_goal_check() {
    let mut s = funded_system(2000);
    assert_eq!(
        s.initialize_campaign(CREATOR, 0, MAX_CAMPAIGN_DURATION + 1, 0),
        Err(Error::Crowdfunding(CrowdfundingError::DurationTooLong))
    );
}

#[test]
fn params_check_orders_its_errors() {
    assert_eq!(
        campaign_params_check(5, MAX_CAMPAIGN_DURATION + 1),
        Err(CrowdfundingError::DurationTooLong)
    );
    assert_eq!(campaign_params_check(0, 10), Err(CrowdfundingError::InvalidGoalAmount));
    assert_eq!(campaign_params_check(5, -1), Err(CrowdfundingError::InvalidDuration));
    assert_eq!(campaign_params_check(5, 10), Ok(()));
}

#[test]
fn sequential_campaigns_get_sequential_ids() {
    let mut s = funded_system(2000);
    for _ in 0..5 {
        assert!(s.initialize_campaign(CREATOR, 1000, 100, 0).is_ok());
    }
    assert_eq!(s.campaigns.len(), 5);
    assert_eq!(s.counter.as_ref().unwrap().count, 5);
    for (i, c) in s.campaigns.iter().enumerate() {
        assert_eq!(c.id, i as u64);
    }
    for i in 0..5 {
        for j in (i + 1)..5 {
            assert_ne!(s.campaigns[i].address, s.campaigns[j].address);
        }
    }
}

#[test]
fn donation_moves_value_into_escrow() {
    let mut s = funded_system(2000);
    assert!(s.initialize_campaign(CREATOR, 1000, 100, 0).is_ok());
    assert!(s.donate(DONOR, 0, 1200, 10).is_ok());
    assert_eq!(s.campaigns[0].total_funded, 1200);
    assert_eq!(s.campaigns[0].lamports, 1200);
    assert_eq!(s.wallet_balance(DONOR), 800);
    let d = &s.donations[0];
    assert_eq!(d.donor, DONOR);
    assert_eq!(d.amount, 1200);
    assert!(!d.refunded);
    assert_eq!(d.campaign, s.campaigns[0].address);
}

#[test]
fn donation_to_missing_campaign_fails() {
    let mut s = funded_system(2000);
    assert_eq!(
        s.donate(DONOR, 0, 100, 10),
        Err(Error::Ledger(LedgerError::AccountNotFound))
    );
}

#[test]
fn donation_of_zero_fails() {
    let mut s = funded_system(2000);
    assert!(s.initialize_campaign(CREATOR, 1000, 100, 0).is_ok());
    assert_eq!(
        s.donate(DONOR, 0, 0, 10),
        Err(Error::Crowdfunding(CrowdfundingError::InvalidAmount))
    );
}

#[test]
fn donation_needs_a_funded_wallet() {
    let mut s = funded_system(100);
    assert!(s.initialize_campaign(CREATOR, 1000, 100, 0).is_ok());
    assert_eq!(
        s.donate(DONOR, 0, 101, 10),
        Err(Error::Ledger(LedgerError::InsufficientFunds))
    );
    assert_eq!(
        s.donate(77, 0, 1, 10),
        Err(Error::Ledger(LedgerError::InsufficientFunds))
    );
}

#[test]
fn second_donation_by_same_donor_is_rejected() {
    let mut s = funded_system(2000);
    assert!(s.initialize_campaign(CREATOR, 1000, 100, 0).is_ok());
    assert!(s.donate(DONOR, 0, 300, 10).is_ok());
    assert_eq!(
        s.donate(DONOR, 0, 200, 11),
        Err(Error::Ledger(LedgerError::AlreadyInitialized))
    );
    assert_eq!(s.donations.len(), 1);
    assert_eq!(s.campaigns[0].total_funded, 300);
}

#[test]
fn two_donors_may_fund_the_same_campaign() {
    let mut s = funded_system(2000);
    assert!(s.airdrop(51, 500));
    assert!(s.initialize_campaign(CREATOR, 1000, 100, 0).is_ok());
    assert!(s.donate(DONOR, 0, 300, 10).is_ok());
    assert!(s.donate(51, 0, 400, 11).is_ok());
    assert_eq!(s.campaigns[0].total_funded, 700);
    assert_eq!(s.donations.len(), 2);
}

#[test]
fn donation_exactly_at_deadline_fails() {
    let mut s = funded_system(2000);
    assert!(s.initialize_campaign(CREATOR, 1000, 100, 0).is_ok());
    assert_eq!(
        s.donate(DONOR, 0, 100, 100),
        Err(Error::Crowdfunding(CrowdfundingError::CampaignEnded))
    );
    assert!(s.donate(DONOR, 0, 100, 99).is_ok());
}

#[test]
fn donation_after_finalization_fails() {
    let mut s = funded_system(2000);
    assert!(s.initialize_campaign(CREATOR, 1000, 100, 0).is_ok());
    assert!(s.finalize_campaign(CREATOR, 0, 100).is_ok());
    assert_eq!(
        s.donate(DONOR, 0, 100, 10),
        Err(Error::Crowdfunding(CrowdfundingError::CampaignInactive))
    );
}

#[test]
fn goal_met_pays_the_creator_and_blocks_refunds() {
    let mut s = funded_system(2000);
    assert!(s.initialize_campaign(CREATOR, 1000, 100, 0).is_ok());
    assert!(s.donate(DONOR, 0, 1200, 10).is_ok());
    assert!(s.finalize_campaign(CREATOR, 0, 100).is_ok());
    assert!(!s.campaigns[0].is_active);
    assert_eq!(s.wallet_balance(CREATOR), 1200);
    assert_eq!(s.campaigns[0].lamports, 0);
    assert_eq!(s.campaigns[0].total_funded, 1200);
    assert_eq!(
        s.refund(DONOR, 0),
        Err(Error::Crowdfunding(CrowdfundingError::CampaignSuccessful))
    );
}

#[test]
fn goal_missed_keeps_escrow_and_refunds_the_donor() {
    let mut s = funded_system(2000);
    assert!(s.initialize_campaign(CREATOR, 1000, 100, 0).is_ok());
    assert!(s.donate(DONOR, 0, 400, 10).is_ok());
    assert_eq!(s.wallet_balance(DONOR), 1600);
    assert!(s.finalize_campaign(CREATOR, 0, 100).is_ok());
    assert!(!s.campaigns[0].is_active);
    assert_eq!(s.wallet_balance(CREATOR), 0);
    assert_eq!(s.campaigns[0].lamports, 400);
    assert!(s.refund(DONOR, 0).is_ok());
    assert_eq!(s.wallet_balance(DONOR), 2000);
    assert_eq!(s.campaigns[0].total_funded, 0);
    assert_eq!(s.campaigns[0].lamports, 0);
    assert!(s.donations[0].refunded);
}

#[test]
fn refund_is_one_shot() {
    let mut s = funded_system(2000);
    assert!(s.initialize_campaign(CREATOR, 1000, 100, 0).is_ok());
    assert!(s.donate(DONOR, 0, 400, 10).is_ok());
    assert!(s.finalize_campaign(CREATOR, 0, 100).is_ok());
    assert!(s.refund(DONOR, 0).is_ok());
    assert_eq!(
        s.refund(DONOR, 0),
        Err(Error::Crowdfunding(CrowdfundingError::AlreadyRefunded))
    );
    assert_eq!(s.wallet_balance(DONOR), 2000);
}

#[test]
fn refund_requires_a_closed_campaign() {
    let mut s = funded_system(2000);
    assert!(s.initialize_campaign(CREATOR, 1000, 100, 0).is_ok());
    assert!(s.donate(DONOR, 0, 400, 10).is_ok());
    assert_eq!(
        s.refund(DONOR, 0),
        Err(Error::Crowdfunding(CrowdfundingError::CampaignIsStillActive))
    );
}

#[test]
fn refund_without_a_donation_fails() {
    let mut s = funded_system(2000);
    assert!(s.initialize_campaign(CREATOR, 1000, 100, 0).is_ok());
    assert!(s.finalize_campaign(CREATOR, 0, 100).is_ok());
    assert_eq!(s.refund(DONOR, 0), Err(Error::Ledger(LedgerError::AccountNotFound)));
}

#[test]
fn refund_cannot_be_claimed_through_another_campaign() {
    let mut s = funded_system(2000);
    assert!(s.initialize_campaign(CREATOR, 1000, 100, 0).is_ok());
    assert!(s.initialize_campaign(CREATOR, 1000, 100, 0).is_ok());
    assert!(s.donate(DONOR, 0, 400, 10).is_ok());
    assert!(s.finalize_campaign(CREATOR, 0, 100).is_ok());
    assert!(s.finalize_campaign(CREATOR, 1, 100).is_ok());
    assert_eq!(s.refund(DONOR, 1), Err(Error::Ledger(LedgerError::AccountNotFound)));
    assert!(s.refund(DONOR, 0).is_ok());
}

#[test]
fn refund_checks_reject_a_foreign_donation() {
    let c = Campaign {
        creator: CREATOR,
        id: 0,
        goal_amount: 1000,
        end_time: 100,
        total_funded: 400,
        is_active: false,
        bump: 0,
        address: vec![1, 2, 3],
        lamports: 400,
    };
    let d = Donation {
        donor: DONOR,
        campaign: vec![1, 2, 3],
        amount: 400,
        refunded: false,
        bump: 0,
    };
    assert_eq!(refund_checks(&c, &d, 99), Err(CrowdfundingError::InvalidDonor));
    assert_eq!(refund_checks(&c, &d, DONOR), Ok(()));
}

#[test]
fn finalize_requires_the_deadline() {
    let mut s = funded_system(2000);
    assert!(s.initialize_campaign(CREATOR, 1000, 100, 0).is_ok());
    assert_eq!(
        s.finalize_campaign(CREATOR, 0, 99),
        Err(Error::Crowdfunding(CrowdfundingError::CampaignNotEnded))
    );
    assert!(s.finalize_campaign(CREATOR, 0, 100).is_ok());
}

#[test]
fn finalize_requires_the_creator() {
    let mut s = funded_system(2000);
    assert!(s.initialize_campaign(CREATOR, 1000, 100, 0).is_ok());
    assert_eq!(
        s.finalize_campaign(99, 0, 100),
        Err(Error::Crowdfunding(CrowdfundingError::Unauthorized))
    );
    assert_eq!(
        s.finalize_campaign(CREATOR, 1, 100),
        Err(Error::Ledger(LedgerError::AccountNotFound))
    );
}

#[test]
fn second_finalization_never_pays_twice() {
    let mut s = funded_system(2000);
    assert!(s.initialize_campaign(CREATOR, 1000, 100, 0).is_ok());
    assert!(s.donate(DONOR, 0, 1200, 10).is_ok());
    assert!(s.finalize_campaign(CREATOR, 0, 100).is_ok());
    assert_eq!(s.wallet_balance(CREATOR), 1200);
    assert!(s.finalize_campaign(CREATOR, 0, 101).is_ok());
    assert_eq!(s.wallet_balance(CREATOR), 1200);
    assert!(!s.campaigns[0].is_active);
    assert_eq!(s.campaigns[0].lamports, 0);
}

#[test]
fn value_is_conserved_across_a_full_run() {
    let mut s = funded_system(2000);
    assert!(s.airdrop(51, 3000));
    assert!(s.initialize_campaign(CREATOR, 1000, 100, 0).is_ok());
    assert!(s.initialize_campaign(CREATOR, 5000, 100, 0).is_ok());
    assert!(s.donate(DONOR, 0, 1500, 10).is_ok());
    assert!(s.donate(51, 1, 2500, 10).is_ok());
    assert!(s.finalize_campaign(CREATOR, 0, 100).is_ok());
    assert!(s.finalize_campaign(CREATOR, 1, 100).is_ok());
    assert!(s.refund(51, 1).is_ok());
    let wallets: u64 = s.wallets.iter().map(|w| w.lamports).sum();
    let escrows: u64 = s.campaigns.iter().map(|c| c.lamports).sum();
    assert_eq!(wallets + escrows, s.supply);
    assert_eq!(s.supply, 5000);
}

#[test]
fn airdrop_refuses_to_overflow_the_supply() {
    let mut s = Crowdfunding::new();
    assert!(s.airdrop(1, u64::MAX));
    assert!(!s.airdrop(2, 1));
    assert_eq!(s.wallet_balance(1), u64::MAX);
    assert_eq!(s.wallet_balance(2), 0);
}
