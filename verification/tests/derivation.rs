use payroll_program::address::{org_address, worker_address, Address};

const PROGRAM: [u8; 32] = [
    233, 140, 75, 244, 203, 54, 110, 141, 41, 139, 81, 182, 39, 215, 181, 137, 218, 151, 81, 99,
    206, 185, 152, 186, 17, 205, 161, 248, 158, 201, 162, 197,
];

const ACME: [u8; 32] = [
    119, 183, 144, 234, 225, 45, 180, 181, 49, 145, 216, 17, 51, 84, 47, 231, 183, 108, 215, 188,
    168, 59, 198, 205, 109, 59, 237, 14, 52, 160, 231, 202,
];

fn program() -> Address {
    Address::new(PROGRAM)
}

fn key(byte: u8) -> Address {
    Address::new([byte; 32])
}

#[test]
fn address_keeps_its_bytes() {
    let mut bytes = [0u8; 32];
    bytes[0] = 7;
    bytes[31] = 9;
    assert_eq!(Address::new(bytes).to_bytes(), bytes);
}

#[test]
fn addresses_compare_by_bytes() {
    let mut other = [5u8; 32];
    assert!(key(5) == Address::new(other));
    other[31] = 6;
    assert!(key(5) != Address::new(other));
    other[31] = 5;
    other[0] = 4;
    assert!(key(5) != Address::new(other));
}

#[test]
fn org_address_of_acme() {
    let derived = org_address(&key(1), "Acme", &program());
    assert_eq!(derived, Some((Address::new(ACME), 252)));
}

#[test]
fn org_address_is_derive_with_the_org_tag() {
    let by_name = org_address(&key(1), "Acme", &program());
    let by_seeds = payroll_program::address::derive(b"org", &key(1), b"Acme", &program());
    assert_eq!(by_name, by_seeds);
}

#[test]
fn worker_address_of_first_wallet() {
    let expected = [
        84, 91, 43, 216, 85, 97, 1, 176, 66, 20, 102, 77, 15, 99, 252, 72, 169, 9, 200, 137, 179,
        234, 36, 173, 120, 214, 92, 19, 42, 29, 12, 115,
    ];
    let derived = worker_address(&Address::new(ACME), &key(2), &program());
    assert_eq!(derived, Some((Address::new(expected), 255)));
}

#[test]
fn worker_address_searches_for_a_bump() {
    let expected = [
        145, 59, 130, 4, 243, 161, 244, 186, 134, 108, 17, 154, 181, 73, 152, 21, 19, 4, 194, 201,
        170, 171, 248, 244, 29, 62, 68, 89, 117, 198, 206, 92,
    ];
    let derived = worker_address(&Address::new(ACME), &key(3), &program());
    assert_eq!(derived, Some((Address::new(expected), 250)));
}

#[test]
fn worker_address_is_derive_with_the_worker_tag() {
    let org = Address::new(ACME);
    let by_wallet = worker_address(&org, &key(2), &program());
    let by_seeds = payroll_program::address::derive(b"worker", &org, &[2u8; 32], &program());
    assert_eq!(by_wallet, by_seeds);
}

#[test]
fn derive_gives_the_same_address_again() {
    let first = payroll_program::address::derive(b"worker", &key(8), &[9u8; 32], &program());
    let second = payroll_program::address::derive(b"worker", &key(8), &[9u8; 32], &program());
    assert!(first.is_some());
    assert_eq!(first, second);
}

#[test]
fn derive_separates_wallets() {
    let org = Address::new(ACME);
    let first = worker_address(&org, &key(2), &program()).unwrap();
    let second = worker_address(&org, &key(3), &program()).unwrap();
    assert!(first.0 != second.0);
}

#[test]
fn derive_separates_tags_parents_and_programs() {
    let base = payroll_program::address::derive(b"worker", &key(1), &[2u8; 32], &program()).unwrap();
    let other_tag = payroll_program::address::derive(b"org", &key(1), &[2u8; 32], &program()).unwrap();
    let other_parent = payroll_program::address::derive(b"worker", &key(7), &[2u8; 32], &program()).unwrap();
    let other_program = payroll_program::address::derive(b"worker", &key(1), &[2u8; 32], &key(0)).unwrap();
    assert!(base.0 != other_tag.0);
    assert!(base.0 != other_parent.0);
    assert!(base.0 != other_program.0);
}

#[test]
fn derive_takes_a_seed_of_32_bytes() {
    let expected = [
        155, 157, 244, 54, 106, 9, 166, 158, 246, 28, 195, 79, 177, 14, 177, 137, 52, 35, 211, 33,
        163, 199, 43, 227, 188, 254, 83, 84, 222, 160, 206, 196,
    ];
    let name = "a".repeat(32);
    let derived = org_address(&key(1), &name, &program());
    assert_eq!(derived, Some((Address::new(expected), 254)));
}

#[test]
fn derive_has_no_address_for_a_longer_tag() {
    assert_eq!(payroll_program::address::derive(&[b't'; 33], &key(1), b"Acme", &program()), None);
}

#[test]
fn derive_hands_a_long_child_on_as_seeds() {
    let expected = [
        255, 193, 120, 159, 64, 158, 227, 7, 207, 29, 234, 27, 238, 252, 207, 146, 50, 72, 83, 248,
        37, 185, 213, 198, 179, 123, 14, 229, 153, 125, 1, 145,
    ];
    let derived = payroll_program::address::derive(b"org", &key(1), &[b'a'; 33], &program());
    assert_eq!(derived, Some((Address::new(expected), 255)));
    let name = "a".repeat(33);
    assert_eq!(org_address(&key(1), &name, &program()), derived);
}

#[test]
fn derive_takes_a_child_of_two_full_seeds() {
    let expected = [
        114, 210, 54, 252, 51, 177, 68, 27, 174, 49, 227, 11, 102, 21, 49, 99, 243, 253, 227, 236,
        41, 20, 198, 222, 255, 75, 154, 162, 224, 87, 179, 246,
    ];
    let derived = payroll_program::address::derive(b"org", &key(1), &[b'a'; 64], &program());
    assert_eq!(derived, Some((Address::new(expected), 253)));
}

#[test]
fn org_address_of_a_name_of_100_letters() {
    let expected = [
        217, 212, 249, 181, 172, 215, 38, 133, 229, 177, 144, 38, 151, 224, 201, 85, 234, 184, 185,
        225, 205, 170, 24, 28, 203, 29, 58, 253, 110, 162, 88, 182,
    ];
    let name = "n".repeat(100);
    assert_eq!(org_address(&key(1), &name, &program()), Some((Address::new(expected), 255)));
}

#[test]
fn org_address_of_a_name_of_100_characters_of_two_bytes() {
    let expected = [
        169, 53, 136, 140, 148, 120, 17, 11, 171, 158, 85, 79, 5, 138, 72, 63, 97, 247, 233, 166,
        148, 55, 86, 22, 50, 118, 66, 50, 1, 83, 148, 219,
    ];
    let name = "é".repeat(100);
    assert_eq!(org_address(&key(1), &name, &program()), Some((Address::new(expected), 254)));
}

#[test]
fn org_address_of_a_name_of_100_characters_of_four_bytes() {
    let name = "\u{1F600}".repeat(100);
    assert_eq!(name.len(), 400);
    assert!(org_address(&key(1), &name, &program()).is_some());
}

#[test]
fn seed_at_cuts_a_key_into_seeds() {
    let bytes: Vec<u8> = (0..70u8).collect();
    assert_eq!(payroll_program::address::seed_at(&bytes, 0), &bytes[0..32]);
    assert_eq!(payroll_program::address::seed_at(&bytes, 1), &bytes[32..64]);
    assert_eq!(payroll_program::address::seed_at(&bytes, 2), &bytes[64..70]);
    assert_eq!(payroll_program::address::seed_at(&bytes, 3), &bytes[0..0]);
    assert_eq!(payroll_program::address::seed_at(&bytes, usize::MAX), &bytes[0..0]);
    assert_eq!(payroll_program::address::seed_at(&bytes[0..64], 1), &bytes[32..64]);
    assert_eq!(payroll_program::address::seed_at(&bytes[0..64], 2), &bytes[0..0]);
    assert_eq!(payroll_program::address::seed_at(&bytes[0..32], 0), &bytes[0..32]);
    assert_eq!(payroll_program::address::seed_at(&bytes[0..32], 1), &bytes[0..0]);
    assert_eq!(payroll_program::address::seed_at(&bytes[0..5], 0), &bytes[0..5]);
    assert_eq!(payroll_program::address::seed_at(&bytes[0..0], 0), &bytes[0..0]);
}
