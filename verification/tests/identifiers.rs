use bluetooth::ble::{uuid_contains, Uuid};
use bluetooth::stdimp::discovery::{role, Role};

const XIAOMI: u128 = 0x0000fe95_0000_1000_8000_00805f9b34fb;

#[test]
fn an_identifier_contains_its_digits() {
    let uuid = Uuid::from_u128(XIAOMI);
    assert_eq!(uuid.as_u128(), XIAOMI);
    assert!(uuid_contains(&uuid, "fe95"));
    assert!(uuid_contains(&uuid, "0000fe95"));
    assert!(uuid_contains(&uuid, "34fb"));
    assert!(!uuid_contains(&uuid, "fe96"));
    assert!(!uuid_contains(&uuid, "0000fe9500001000800000805f9b34fb0"));
}

#[test]
fn hyphens_do_not_break_the_search() {
    let uuid = Uuid::from_u128(XIAOMI);
    assert!(uuid_contains(&uuid, "fe9500001000"));
    assert!(uuid_contains(&uuid, "0000fe9500001000800000805f9b34fb"));
    assert!(!uuid_contains(&uuid, "fe95-0000"));
    assert!(!uuid_contains(&uuid, "-"));
}

#[test]
fn the_case_of_what_is_looked_for_does_not_count() {
    let uuid = Uuid::from_u128(XIAOMI);
    assert!(uuid_contains(&uuid, "FE95"));
    assert!(uuid_contains(&uuid, "Fe95"));
    assert!(uuid_contains(&uuid, "5F9B34FB"));
}

#[test]
fn every_identifier_contains_the_empty_text() {
    assert!(uuid_contains(&Uuid::from_u128(0), ""));
    assert!(uuid_contains(&Uuid::from_u128(u128::MAX), ""));
}

#[test]
fn the_digits_are_those_of_the_number() {
    for value in [0u128, 1, u128::MAX, XIAOMI, 0x0123456789abcdef_fedcba9876543210] {
        let digits = format!("{:032x}", value);
        assert!(uuid_contains(&Uuid::from_u128(value), &digits));
        assert_eq!(
            uuid::Uuid::from_u128(value).to_string().replace('-', ""),
            digits
        );
    }
}

fn role_of(short: u128) -> Role {
    role(&Uuid::from_u128((short << 96) | 0x1000_8000_00805f9b34fb))
}

#[test]
fn the_role_is_told_by_keywords() {
    assert_eq!(role_of(0x005e), Role::Recv);
    assert_eq!(role_of(0x005f), Role::Sent);
    assert_eq!(role_of(0x0050), Role::Service);
    assert_eq!(role_of(0x0051), Role::Other);
}

#[test]
fn the_first_keyword_decides() {
    // The tail of a Bluetooth base identifier holds "00805f", but not "005f".
    assert_eq!(role_of(0x005f_005e), Role::Recv);
    assert_eq!(role_of(0x0050_005f), Role::Sent);
    assert_eq!(role_of(0x0050_005e), Role::Recv);
}
