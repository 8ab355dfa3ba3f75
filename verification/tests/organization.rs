use payroll_program::address::{org_address, Address};
use payroll_program::errors::PayrollError;
use payroll_program::instructions::{create_org_with, fund_treasury, withdraw};
use payroll_program::states::{
    OrgAccount, OrgRegistry, Organization, Transfer, WorkerRegistry,
};

fn program() -> Address {
    Address::new([
        233, 140, 75, 244, 203, 54, 110, 141, 41, 139, 81, 182, 39, 215, 181, 137, 218, 151, 81,
        99, 206, 185, 152, 186, 17, 205, 161, 248, 158, 201, 162, 197,
    ])
}

fn key(byte: u8) -> Address {
    Address::new([byte; 32])
}

/// A creation where no organization is kept yet.
fn create(
    authority: Address,
    name: String,
    created_at: i64,
    program_id: &Address,
) -> Result<OrgAccount, PayrollError> {
    payroll_program::create_org(&mut OrgRegistry::new(), authority, name, created_at, program_id)
}

fn acme() -> OrgAccount {
    create(key(1), String::from("Acme"), 1_700_000_000, &program()).unwrap()
}

fn acme_with(treasury: u64) -> OrgAccount {
    let mut org = acme();
    if treasury > 0 {
        fund_treasury(&mut org, &key(1), treasury).unwrap();
    }
    org
}

#[test]
fn create_org_starts_empty() {
    let org = acme();
    let (address, bump) = org_address(&key(1), "Acme", &program()).unwrap();
    assert_eq!(org.address, address);
    assert_eq!(org.balance, 0);
    assert_eq!(
        org.data,
        Organization {
            authority: key(1),
            name: String::from("Acme"),
            treasury: 0,
            workers_count: 0,
            created_at: 1_700_000_000,
            bump,
        }
    );
    assert_eq!(bump, 252);
    assert!(org.is_well_formed());
}

#[test]
fn create_org_refuses_a_name_of_101_characters() {
    let name = "n".repeat(101);
    let made = create(key(1), name, 0, &program());
    assert_eq!(made, Err(PayrollError::InvalidName));
    let name = "é".repeat(101);
    let made = create(key(1), name, 0, &program());
    assert_eq!(made, Err(PayrollError::InvalidName));
}

#[test]
fn create_org_takes_a_name_of_100_letters() {
    let name = "a".repeat(100);
    let made = create(key(1), name.clone(), 9, &program()).unwrap();
    let (address, bump) = org_address(&key(1), &name, &program()).unwrap();
    assert_eq!(made.address, address);
    assert_eq!(made.balance, 0);
    assert_eq!(
        made.data,
        Organization {
            authority: key(1),
            name,
            treasury: 0,
            workers_count: 0,
            created_at: 9,
            bump,
        }
    );
}

#[test]
fn create_org_takes_a_name_of_100_characters_of_two_bytes() {
    let name = "é".repeat(100);
    let made = create(key(1), name.clone(), 9, &program()).unwrap();
    assert_eq!(made.data.name, name);
    assert_eq!(made.data.bump, 254);
    assert_eq!(made.data.treasury, 0);
    assert_eq!(made.data.workers_count, 0);
    assert_eq!(made.data.authority, key(1));
}

#[test]
fn create_org_takes_a_name_of_33_bytes() {
    let name = "n".repeat(33);
    let made = create(key(1), name.clone(), 0, &program()).unwrap();
    let (address, bump) = org_address(&key(1), &name, &program()).unwrap();
    assert_eq!(made.address, address);
    assert_eq!(made.data.bump, bump);
    assert_eq!(made.data.name, name);
}

#[test]
fn create_org_takes_a_name_of_32_bytes() {
    let name = "a".repeat(32);
    let made = create(key(1), name.clone(), 5, &program()).unwrap();
    assert_eq!(made.data.name, name);
    assert_eq!(made.data.bump, 254);
}

#[test]
fn create_org_takes_an_empty_name() {
    let made = create(key(1), String::new(), 5, &program()).unwrap();
    let (address, bump) = org_address(&key(1), "", &program()).unwrap();
    assert_eq!(made.address, address);
    assert_eq!(made.data.bump, bump);
    assert_eq!(made.data.name, "");
}

#[test]
fn create_org_keeps_the_address() {
    let mut organizations = OrgRegistry::new();
    let made =
        payroll_program::create_org(&mut organizations, key(1), String::from("Acme"), 5, &program())
            .unwrap();
    assert_eq!(organizations.addresses, vec![made.address]);
    assert_eq!(organizations.len(), 1);
    assert!(organizations.contains(&made.address));
}

#[test]
fn create_org_refuses_a_second_creation() {
    let mut organizations = OrgRegistry::new();
    let mut org =
        payroll_program::create_org(&mut organizations, key(1), String::from("Acme"), 5, &program())
            .unwrap();
    fund_treasury(&mut org, &key(1), 1000).unwrap();
    let mut workers = WorkerRegistry::new();
    payroll_program::add_worker(&mut org, &mut workers, &key(1), &key(2), 100, 6, &program())
        .unwrap();
    let before = org.clone();
    let kept = organizations.addresses.clone();
    let again =
        payroll_program::create_org(&mut organizations, key(1), String::from("Acme"), 7, &program());
    assert_eq!(again, Err(PayrollError::InvalidName));
    assert_eq!(organizations.addresses, kept);
    assert_eq!(org, before);
    assert_eq!(org.data.treasury, 1000);
    assert_eq!(org.data.workers_count, 1);
    assert_eq!(org.data.created_at, 5);
    let again =
        payroll_program::create_org(&mut organizations, key(1), String::from("Acme"), 5, &program());
    assert_eq!(again, Err(PayrollError::InvalidName));
    assert_eq!(organizations.addresses, kept);
}

#[test]
fn create_org_refuses_a_second_creation_after_others() {
    let mut organizations = OrgRegistry::new();
    payroll_program::create_org(&mut organizations, key(1), String::from("Acme"), 5, &program())
        .unwrap();
    payroll_program::create_org(&mut organizations, key(1), String::from("Other"), 5, &program())
        .unwrap();
    payroll_program::create_org(&mut organizations, key(2), String::from("Acme"), 5, &program())
        .unwrap();
    assert_eq!(organizations.len(), 3);
    let again =
        payroll_program::create_org(&mut organizations, key(1), String::from("Acme"), 9, &program());
    assert_eq!(again, Err(PayrollError::InvalidName));
    let again =
        payroll_program::create_org(&mut organizations, key(2), String::from("Acme"), 9, &program());
    assert_eq!(again, Err(PayrollError::InvalidName));
    assert_eq!(organizations.len(), 3);
}

#[test]
fn create_org_takes_one_name_under_two_authorities() {
    let mut organizations = OrgRegistry::new();
    let first =
        payroll_program::create_org(&mut organizations, key(1), String::from("Acme"), 5, &program())
            .unwrap();
    let second =
        payroll_program::create_org(&mut organizations, key(2), String::from("Acme"), 5, &program())
            .unwrap();
    assert!(first.address != second.address);
    assert_eq!(organizations.addresses, vec![first.address, second.address]);
}

#[test]
fn create_org_keeps_nothing_of_a_refused_name() {
    let mut organizations = OrgRegistry::new();
    let name = "n".repeat(101);
    let made = payroll_program::create_org(&mut organizations, key(1), name, 5, &program());
    assert_eq!(made, Err(PayrollError::InvalidName));
    assert_eq!(organizations.len(), 0);
    let made = create_org_with(&mut organizations, key(1), String::from("Acme"), 0, None);
    assert_eq!(made, Err(PayrollError::InvalidName));
    assert_eq!(organizations.len(), 0);
}

#[test]
fn create_org_with_refuses_an_address_in_use() {
    let mut organizations = OrgRegistry::new();
    let first =
        create_org_with(&mut organizations, key(1), String::from("Acme"), 0, Some((key(9), 200)));
    assert!(first.is_ok());
    let again =
        create_org_with(&mut organizations, key(2), String::from("Other"), 1, Some((key(9), 200)));
    assert_eq!(again, Err(PayrollError::InvalidName));
    assert_eq!(organizations.addresses, vec![key(9)]);
    let other =
        create_org_with(&mut organizations, key(2), String::from("Other"), 1, Some((key(8), 200)));
    assert!(other.is_ok());
    assert_eq!(organizations.addresses, vec![key(9), key(8)]);
}

#[test]
fn org_registry_keeps_each_address_once() {
    let mut organizations = OrgRegistry::new();
    assert_eq!(organizations.len(), 0);
    assert!(!organizations.contains(&key(1)));
    assert!(organizations.insert(key(1)));
    assert!(organizations.insert(key(2)));
    assert!(!organizations.insert(key(1)));
    assert_eq!(organizations.addresses, vec![key(1), key(2)]);
    assert!(organizations.contains(&key(2)));
    assert!(!organizations.contains(&key(3)));
}

#[test]
fn create_org_with_takes_a_name_of_100_characters() {
    let name = "n".repeat(100);
    let made = create_org_with(&mut OrgRegistry::new(), key(1), name.clone(), -3, Some((key(9), 200))).unwrap();
    assert_eq!(made.address, key(9));
    assert_eq!(made.balance, 0);
    assert_eq!(made.data.authority, key(1));
    assert_eq!(made.data.name, name);
    assert_eq!(made.data.treasury, 0);
    assert_eq!(made.data.workers_count, 0);
    assert_eq!(made.data.created_at, -3);
    assert_eq!(made.data.bump, 200);
}

#[test]
fn create_org_with_refuses_a_name_of_101_characters() {
    let name = "n".repeat(101);
    let made = create_org_with(&mut OrgRegistry::new(), key(1), name, 0, Some((key(9), 200)));
    assert_eq!(made, Err(PayrollError::InvalidName));
}

#[test]
fn create_org_with_counts_characters_not_bytes() {
    let name = "é".repeat(100);
    let made = create_org_with(&mut OrgRegistry::new(), key(1), name.clone(), 0, Some((key(9), 200))).unwrap();
    assert_eq!(made.data.name, name);
    let name = "é".repeat(101);
    let made = create_org_with(&mut OrgRegistry::new(), key(1), name, 0, Some((key(9), 200)));
    assert_eq!(made, Err(PayrollError::InvalidName));
    let name = "\u{1F600}".repeat(100);
    assert!(create_org_with(&mut OrgRegistry::new(), key(1), name, 0, Some((key(9), 200))).is_ok());
}

#[test]
fn create_org_with_refuses_a_missing_address() {
    let made = create_org_with(&mut OrgRegistry::new(), key(1), String::from("Acme"), 0, None);
    assert_eq!(made, Err(PayrollError::InvalidName));
}

#[test]
fn fund_treasury_adds_to_balance_and_treasury() {
    let mut org = acme();
    let address = org.address;
    assert_eq!(
        fund_treasury(&mut org, &key(1), 1000),
        Ok(Transfer { from: key(1), to: address, amount: 1000 })
    );
    assert_eq!(org.data.treasury, 1000);
    assert_eq!(org.balance, 1000);
    assert_eq!(
        fund_treasury(&mut org, &key(1), 1),
        Ok(Transfer { from: key(1), to: address, amount: 1 })
    );
    assert_eq!(org.data.treasury, 1001);
    assert_eq!(org.balance, 1001);
    assert_eq!(org.data.workers_count, 0);
    assert_eq!(org.data.authority, key(1));
}

#[test]
fn fund_treasury_keeps_what_the_account_held_before() {
    let mut org = OrgAccount::new(key(9), 50, acme().data).unwrap();
    assert_eq!(
        fund_treasury(&mut org, &key(1), 20),
        Ok(Transfer { from: key(1), to: key(9), amount: 20 })
    );
    assert_eq!(org.data.treasury, 20);
    assert_eq!(org.balance, 70);
}

#[test]
fn fund_treasury_refuses_zero() {
    let mut org = acme_with(700);
    let before = org.clone();
    assert_eq!(fund_treasury(&mut org, &key(1), 0), Err(PayrollError::InvalidAmount));
    assert_eq!(org, before);
    assert_eq!(org.data.treasury, 700);
}

#[test]
fn fund_treasury_refuses_a_stranger() {
    let mut org = acme_with(700);
    let before = org.clone();
    assert_eq!(fund_treasury(&mut org, &key(2), 10), Err(PayrollError::Unauthorized));
    assert_eq!(org, before);
}

#[test]
fn fund_treasury_refuses_a_stranger_before_the_amount() {
    let mut org = acme();
    assert_eq!(fund_treasury(&mut org, &key(2), 0), Err(PayrollError::Unauthorized));
}

#[test]
fn fund_treasury_refuses_a_stranger_with_a_full_account() {
    let mut org = acme_with(u64::MAX);
    assert_eq!(fund_treasury(&mut org, &key(2), 5), Err(PayrollError::Unauthorized));
    assert_eq!(fund_treasury(&mut org, &key(1), 0), Err(PayrollError::InvalidAmount));
    assert_eq!(org.data.treasury, u64::MAX);
    assert_eq!(org.balance, u64::MAX);
}

#[test]
fn fund_treasury_fills_up_to_the_largest_balance() {
    let mut org = acme_with(1);
    assert!(fund_treasury(&mut org, &key(1), u64::MAX - 1).is_ok());
    assert_eq!(org.data.treasury, u64::MAX);
    assert_eq!(org.balance, u64::MAX);
}

#[test]
fn withdraw_takes_from_balance_and_treasury() {
    let mut org = acme_with(700);
    let address = org.address;
    assert_eq!(
        withdraw(&mut org, &key(1), 300),
        Ok(Transfer { from: address, to: key(1), amount: 300 })
    );
    assert_eq!(org.data.treasury, 400);
    assert_eq!(org.balance, 400);
    assert_eq!(
        withdraw(&mut org, &key(1), 400),
        Ok(Transfer { from: address, to: key(1), amount: 400 })
    );
    assert_eq!(org.data.treasury, 0);
    assert_eq!(org.balance, 0);
}

#[test]
fn withdraw_leaves_what_the_treasury_does_not_own() {
    let mut org = OrgAccount::new(key(9), 50, acme().data).unwrap();
    fund_treasury(&mut org, &key(1), 20).unwrap();
    assert_eq!(withdraw(&mut org, &key(1), 21), Err(PayrollError::InsufficientFunds));
    assert_eq!(
        withdraw(&mut org, &key(1), 20),
        Ok(Transfer { from: key(9), to: key(1), amount: 20 })
    );
    assert_eq!(org.data.treasury, 0);
    assert_eq!(org.balance, 50);
}

#[test]
fn withdraw_refuses_more_than_the_treasury() {
    let mut org = acme_with(700);
    let before = org.clone();
    assert_eq!(withdraw(&mut org, &key(1), 800), Err(PayrollError::InsufficientFunds));
    assert_eq!(org, before);
    assert_eq!(org.data.treasury, 700);
    assert_eq!(withdraw(&mut org, &key(1), 701), Err(PayrollError::InsufficientFunds));
    assert_eq!(org.data.treasury, 700);
}

#[test]
fn withdraw_refuses_zero() {
    let mut org = acme_with(700);
    let before = org.clone();
    assert_eq!(withdraw(&mut org, &key(1), 0), Err(PayrollError::InvalidAmount));
    assert_eq!(org, before);
}

#[test]
fn withdraw_refuses_a_stranger() {
    let mut org = acme_with(700);
    let before = org.clone();
    assert_eq!(withdraw(&mut org, &key(2), 10), Err(PayrollError::Unauthorized));
    assert_eq!(withdraw(&mut org, &key(2), 0), Err(PayrollError::Unauthorized));
    assert_eq!(withdraw(&mut org, &key(2), 800), Err(PayrollError::Unauthorized));
    assert_eq!(org, before);
}

#[test]
fn org_account_needs_a_balance_that_covers_the_treasury() {
    let mut record = acme().data;
    record.treasury = 10;
    assert_eq!(OrgAccount::new(key(9), 9, record.clone()), None);
    let account = OrgAccount::new(key(9), 10, record.clone()).unwrap();
    assert_eq!(account.address, key(9));
    assert_eq!(account.balance, 10);
    assert_eq!(account.data, record);
    assert!(account.is_well_formed());
    let broken = OrgAccount { address: key(9), balance: 9, data: record };
    assert!(!broken.is_well_formed());
}

#[test]
fn errors_describe_themselves() {
    assert_eq!(PayrollError::Unauthorized.message(), "Unauthorized access");
    assert_eq!(PayrollError::InvalidName.message(), "Invalid organization name length");
    assert_eq!(PayrollError::InvalidSalary.message(), "Invalid salary amount");
    assert_eq!(PayrollError::InvalidAmount.message(), "Invalid amount");
    assert_eq!(PayrollError::InsufficientFunds.message(), "Insufficient funds in treasury");
    assert_eq!(
        PayrollError::MissingWorkerAccount.message(),
        "Missing worker account in remaining accounts"
    );
    assert_eq!(PayrollError::InvalidWorkerPDA.message(), "Invalid worker PDA");
    assert_eq!(PayrollError::InvalidWorkerWallet.message(), "Invalid worker wallet pubkey");
}
