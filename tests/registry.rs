use community_fund::admin::{initialize_admin, transfer_admin};
use community_fund::errors::ErrorCode;
use community_fund::state::Address;

fn addr(n: u8) -> Address {
    Address { bytes: [n; 32] }
}

#[test]
fn initialize_admin_fills_three_slots_in_order() {
    let config = initialize_admin(addr(1), addr(2), addr(3));
    assert!(config.admins[0] == addr(1));
    assert!(config.admins[1] == addr(2));
    assert!(config.admins[2] == addr(3));
}

#[test]
fn initialize_admin_accepts_duplicates() {
    let config = initialize_admin(addr(1), addr(1), addr(2));
    assert!(config.admins[0] == addr(1));
    assert!(config.admins[1] == addr(1));
}

#[test]
fn transfer_replaces_matching_slot() {
    let mut config = initialize_admin(addr(1), addr(2), addr(3));
    transfer_admin(&mut config, addr(1), addr(3), addr(4)).unwrap();
    assert!(config.admins[0] == addr(1));
    assert!(config.admins[1] == addr(2));
    assert!(config.admins[2] == addr(4));
}

#[test]
fn transfer_replaces_only_first_of_duplicates() {
    let mut config = initialize_admin(addr(1), addr(2), addr(2));
    transfer_admin(&mut config, addr(2), addr(2), addr(5)).unwrap();
    assert!(config.admins[1] == addr(5));
    assert!(config.admins[2] == addr(2));
}

#[test]
fn transfer_of_unknown_admin_is_unauthorized() {
    let mut config = initialize_admin(addr(1), addr(2), addr(3));
    let r = transfer_admin(&mut config, addr(1), addr(9), addr(4));
    assert_eq!(r, Err(ErrorCode::Unauthorized));
    assert!(config.admins[0] == addr(1));
    assert!(config.admins[1] == addr(2));
    assert!(config.admins[2] == addr(3));
}

#[test]
fn transfer_by_non_admin_is_unauthorized() {
    let mut config = initialize_admin(addr(1), addr(2), addr(3));
    let r = transfer_admin(&mut config, addr(7), addr(1), addr(7));
    assert_eq!(r, Err(ErrorCode::Unauthorized));
    assert!(config.admins[0] == addr(1));
}
