use store_inventory::account::{Account, AccountError, BankAccount};

#[test]
fn deposit_adds_to_the_balance() {
    let mut account = BankAccount::new(12345, "alice".to_string(), 100);
    account.deposit(50);
    assert_eq!(account.balance(), 150);
    assert_eq!(account.account_number, 12345);
    assert_eq!(account.holder_name, "alice");
    account.deposit(0);
    assert_eq!(account.balance(), 150);
    account.deposit(u32::MAX - 150);
    assert_eq!(account.balance(), u32::MAX);
}

#[test]
fn withdraw_takes_from_the_balance() {
    let mut account = BankAccount::new(54321, "bob".to_string(), 200);
    assert_eq!(account.withdraw(100), Ok(()));
    assert_eq!(account.balance(), 100);
    assert_eq!(account.withdraw(100), Ok(()));
    assert_eq!(account.balance(), 0);
    assert_eq!(account.holder_name, "bob");
}

#[test]
fn withdraw_of_too_much_is_refused() {
    let mut account = BankAccount::new(54321, "bob".to_string(), 200);
    assert_eq!(account.withdraw(201), Err(AccountError::InsufficientFunds));
    assert_eq!(account.balance(), 200);
    assert_eq!(account.account_number, 54321);
    assert_eq!(
        AccountError::InsufficientFunds.message(),
        "Insufficient funds for withdrawal."
    );
}
