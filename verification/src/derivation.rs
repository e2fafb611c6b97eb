//! Derived addresses: every record's identity is a deterministic function of
//! a namespace tag and its logical parents, computed by the host's program
//! derived address scheme. The bump found at creation is stored so the same
//! address can be reconstructed later, which is how the system proves its
//! authority over a record's custodied funds without holding a signing key.
use vstd::prelude::*;
use vstd::bytes::{spec_u64_to_le_bytes, u64_to_le_bytes};
use anchor_lang::solana_program::pubkey::Pubkey;

verus! {

/// Namespace tag under which campaign records are derived.
pub const CAMPAIGN_NAMESPACE: u8 = 1;

/// Namespace tag under which donation records are derived.
pub const DONATION_NAMESPACE: u8 = 2;

/// The address and bump that the host derives from three seeds, or `None` in
/// the statistically improbable event that no bump works for them.
pub uninterp spec fn derived_address(s1: Seq<u8>, s2: Seq<u8>, s3: Seq<u8>) -> Option<(Seq<u8>, u8)>;

/// The address that the host re-derives from three seeds and a stored bump,
/// or `None` where that combination is invalid.
pub uninterp spec fn rederived_address(s1: Seq<u8>, s2: Seq<u8>, s3: Seq<u8>, bump: u8) -> Option<Seq<u8>>;

/// The executable derivation result `r` agrees with the mathematical one `d`.
pub open spec fn pda_match(r: Option<(Vec<u8>, u8)>, d: Option<(Seq<u8>, u8)>) -> bool {
    match (r, d) {
        (Some(p), Some(q)) => p.0@ == q.0 && p.1 == q.1,
        (None, None) => true,
        _ => false,
    }
}

/// The executable re-derivation result `r` agrees with the mathematical one `d`.
pub open spec fn addr_match(r: Option<Vec<u8>>, d: Option<Seq<u8>>) -> bool {
    match (r, d) {
        (Some(a), Some(b)) => a@ == b,
        (None, None) => true,
        _ => false,
    }
}

/// Relies on `Pubkey::try_find_program_address` under a fixed program id: the
/// derived address and bump are a function of the seeds alone, and the bump
/// it hands back re-derives the address it hands back when appended to the
/// same seeds (its search tries bumps until `create_program_address` accepts
/// one, and returns that address).
#[verifier::external_body]
fn find_derived_address(s1: &Vec<u8>, s2: &Vec<u8>, s3: &Vec<u8>) -> (r: Option<(Vec<u8>, u8)>)
    ensures
        pda_match(r, derived_address(s1@, s2@, s3@)),
        (r matches Some(p) ==> rederived_address(s1@, s2@, s3@, p.1) == Some(p.0@)),
{
    let pid = Pubkey::from_str_const("BkpRdi7GmMvmkE9KtUDHKhSYbdFEGVZepP2XjjPJNWHX");
    match Pubkey::try_find_program_address(&[s1.as_slice(), s2.as_slice(), s3.as_slice()], &pid) {
        Some((a, b)) => Some((a.to_bytes().to_vec(), b)),
        None => None,
    }
}

/// Relies on `Pubkey::create_program_address` under the same fixed program
/// id: re-deriving an address from seeds plus a stored bump is a function of
/// those values alone; an invalid combination is reported, never invented.
#[verifier::external_body]
fn create_derived_address(s1: &Vec<u8>, s2: &Vec<u8>, s3: &Vec<u8>, bump: u8) -> (r: Option<Vec<u8>>)
    ensures
        addr_match(r, rederived_address(s1@, s2@, s3@, bump)),
{
    let pid = Pubkey::from_str_const("BkpRdi7GmMvmkE9KtUDHKhSYbdFEGVZepP2XjjPJNWHX");
    let b = [bump];
    match Pubkey::create_program_address(&[s1.as_slice(), s2.as_slice(), s3.as_slice(), &b], &pid) {
        Ok(a) => Some(a.to_bytes().to_vec()),
        Err(_) => None,
    }
}

/// Where a campaign with this id lives: derived from the campaign namespace
/// and the id alone, so the id is all that is needed to locate it.
pub open spec fn campaign_pda(id: u64) -> Option<(Seq<u8>, u8)> {
    derived_address(seq![CAMPAIGN_NAMESPACE], spec_u64_to_le_bytes(id), Seq::empty())
}

/// What re-deriving a campaign's address from its id and a stored bump gives.
pub open spec fn campaign_authority(id: u64, bump: u8) -> Option<Seq<u8>> {
    rederived_address(seq![CAMPAIGN_NAMESPACE], spec_u64_to_le_bytes(id), Seq::empty(), bump)
}

/// Where the donation of `donor` to the campaign at `campaign_addr` lives:
/// one derived slot per (campaign, donor) pair.
pub open spec fn donation_pda(campaign_addr: Seq<u8>, donor: u64) -> Option<(Seq<u8>, u8)> {
    derived_address(seq![DONATION_NAMESPACE], campaign_addr, spec_u64_to_le_bytes(donor))
}

/// Derive the address and bump for the campaign with this id.
pub fn derive_campaign_address(id: u64) -> (r: Option<(Vec<u8>, u8)>)
    ensures
        pda_match(r, campaign_pda(id)),
        (r matches Some(p) ==> campaign_authority(id, p.1) == Some(p.0@)),
{
    let mut s1: Vec<u8> = Vec::new();
    s1.push(CAMPAIGN_NAMESPACE);
    let s2 = u64_to_le_bytes(id);
    let s3: Vec<u8> = Vec::new();
    proof {
        assert(s1@ =~= seq![CAMPAIGN_NAMESPACE]);
        assert(s3@ =~= Seq::<u8>::empty());
    }
    find_derived_address(&s1, &s2, &s3)
}

/// Reconstruct a campaign's address from its id and stored bump: the proof of
/// authority the system presents when moving funds out of the campaign.
pub fn reconstruct_campaign_authority(id: u64, bump: u8) -> (r: Option<Vec<u8>>)
    ensures
        addr_match(r, campaign_authority(id, bump)),
{
    let mut s1: Vec<u8> = Vec::new();
    s1.push(CAMPAIGN_NAMESPACE);
    let s2 = u64_to_le_bytes(id);
    let s3: Vec<u8> = Vec::new();
    proof {
        assert(s1@ =~= seq![CAMPAIGN_NAMESPACE]);
        assert(s3@ =~= Seq::<u8>::empty());
    }
    create_derived_address(&s1, &s2, &s3, bump)
}

/// Derive the address and bump for the donation of `donor` to the campaign
/// at `campaign_addr`.
pub fn derive_donation_address(campaign_addr: &Vec<u8>, donor: u64) -> (r: Option<(Vec<u8>, u8)>)
    ensures
        pda_match(r, donation_pda(campaign_addr@, donor)),
{
    let mut s1: Vec<u8> = Vec::new();
    s1.push(DONATION_NAMESPACE);
    let s3 = u64_to_le_bytes(donor);
    proof {
        assert(s1@ =~= seq![DONATION_NAMESPACE]);
    }
    find_derived_address(&s1, campaign_addr, &s3)
}

} // verus!
