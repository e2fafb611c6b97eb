use crowdfunding::derivation::{
    derive_campaign_address, derive_donation_address, reconstruct_campaign_authority,
};

#[test]
fn campaign_derivation_is_deterministic() {
    let a = derive_campaign_address(7).expect("derivation should find a bump");
    let b = derive_campaign_address(7).expect("derivation should find a bump");
    assert_eq!(a, b);
}

#[test]
fn different_ids_derive_different_addresses() {
    let a = derive_campaign_address(0).expect("derivation should find a bump");
    let b = derive_campaign_address(1).expect("derivation should find a bump");
    assert_ne!(a.0, b.0);
    assert_eq!(a.0.len(), 32);
    assert_eq!(b.0.len(), 32);
}

#[test]
fn stored_bump_reconstructs_the_address() {
    let (addr, bump) = derive_campaign_address(3).expect("derivation should find a bump");
    let again = reconstruct_campaign_authority(3, bump);
    assert_eq!(again, Some(addr));
}

#[test]
fn wrong_bump_does_not_reconstruct_the_address() {
    let (addr, bump) = derive_campaign_address(3).expect("derivation should find a bump");
    let other = reconstruct_campaign_authority(3, bump.wrapping_sub(1));
    assert_ne!(other, Some(addr));
}

#[test]
fn donation_slots_are_per_campaign_and_donor() {
    let (c0, _) = derive_campaign_address(0).expect("derivation should find a bump");
    let (c1, _) = derive_campaign_address(1).expect("derivation should find a bump");
    let a = derive_donation_address(&c0, 5).expect("derivation should find a bump");
    let b = derive_donation_address(&c0, 6).expect("derivation should find a bump");
    let c = derive_donation_address(&c1, 5).expect("derivation should find a bump");
    assert_ne!(a.0, b.0);
    assert_ne!(a.0, c.0);
    assert_ne!(a.0, c0);
}
