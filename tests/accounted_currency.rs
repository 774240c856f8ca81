use state_chain::state_machine::accounted_currency::{AccountedCurrency, AccountingTransaction, Balances};
use state_chain::state_machine::{StateMachine, User};

#[test]
fn mint_creates_account() {
    let start = Balances::new();
    let end = AccountedCurrency::next_state(
        &start,
        &AccountingTransaction::Mint {
            minter: User::Alice,
            amount: 100,
        },
    );
    let expected = Balances::from_pairs(&[(User::Alice, 100)]);

    assert_eq!(end, expected);
}

#[test]
fn mint_creates_second_account() {
    let start = Balances::from_pairs(&[(User::Alice, 100)]);
    let end = AccountedCurrency::next_state(
        &start,
        &AccountingTransaction::Mint {
            minter: User::Bob,
            amount: 50,
        },
    );
    let expected = Balances::from_pairs(&[(User::Alice, 100), (User::Bob, 50)]);

    assert_eq!(end, expected);
}

#[test]
fn mint_increases_balance() {
    let start = Balances::from_pairs(&[(User::Alice, 100)]);
    let end = AccountedCurrency::next_state(
        &start,
        &AccountingTransaction::Mint {
            minter: User::Alice,
            amount: 50,
        },
    );
    let expected = Balances::from_pairs(&[(User::Alice, 150)]);

    assert_eq!(end, expected);
}

#[test]
fn empty_mint() {
    let start = Balances::new();
    let end = AccountedCurrency::next_state(
        &start,
        &AccountingTransaction::Mint {
            minter: User::Alice,
            amount: 0,
        },
    );
    let expected = Balances::new();

    assert_eq!(end, expected);
}

#[test]
fn simple_burn() {
    let start = Balances::from_pairs(&[(User::Alice, 100)]);
    let end = AccountedCurrency::next_state(
        &start,
        &AccountingTransaction::Burn {
            burner: User::Alice,
            amount: 50,
        },
    );
    let expected = Balances::from_pairs(&[(User::Alice, 50)]);

    assert_eq!(end, expected);
}

#[test]
fn burn_no_existential_deposit_left() {
    let start = Balances::from_pairs(&[(User::Alice, 100), (User::Bob, 50)]);
    let end = AccountedCurrency::next_state(
        &start,
        &AccountingTransaction::Burn {
            burner: User::Bob,
            amount: 50,
        },
    );
    let expected = Balances::from_pairs(&[(User::Alice, 100)]);

    assert_eq!(end, expected);
}

#[test]
fn non_registered_burner() {
    let start = Balances::from_pairs(&[(User::Alice, 100)]);
    let end = AccountedCurrency::next_state(
        &start,
        &AccountingTransaction::Burn {
            burner: User::Bob,
            amount: 50,
        },
    );
    let expected = Balances::from_pairs(&[(User::Alice, 100)]);

    assert_eq!(end, expected);
}

#[test]
fn burn_more_than_balance() {
    let start = Balances::from_pairs(&[(User::Alice, 100), (User::Bob, 50)]);
    let end2 = AccountedCurrency::next_state(
        &start,
        &AccountingTransaction::Burn {
            burner: User::Bob,
            amount: 100,
        },
    );
    let expected2 = Balances::from_pairs(&[(User::Alice, 100)]);

    assert_eq!(end2, expected2);
}

#[test]
fn empty_burn() {
    let start = Balances::from_pairs(&[(User::Alice, 100)]);
    let end = AccountedCurrency::next_state(
        &start,
        &AccountingTransaction::Burn {
            burner: User::Alice,
            amount: 0,
        },
    );
    let expected = Balances::from_pairs(&[(User::Alice, 100)]);

    assert_eq!(end, expected);
}

#[test]
fn burner_does_not_exist() {
    let start = Balances::from_pairs(&[(User::Alice, 100)]);
    let end = AccountedCurrency::next_state(
        &start,
        &AccountingTransaction::Burn {
            burner: User::Bob,
            amount: 50,
        },
    );
    let expected = Balances::from_pairs(&[(User::Alice, 100)]);

    assert_eq!(end, expected);
}

#[test]
fn simple_transfer() {
    let start = Balances::from_pairs(&[(User::Alice, 100), (User::Bob, 50)]);
    let end = AccountedCurrency::next_state(
        &start,
        &AccountingTransaction::Transfer {
            sender: User::Alice,
            receiver: User::Bob,
            amount: 10,
        },
    );
    let expected = Balances::from_pairs(&[(User::Alice, 90), (User::Bob, 60)]);

    assert_eq!(end, expected);

    let start = Balances::from_pairs(&[(User::Alice, 90), (User::Bob, 60)]);
    let end1 = AccountedCurrency::next_state(
        &start,
        &AccountingTransaction::Transfer {
            sender: User::Bob,
            receiver: User::Alice,
            amount: 50,
        },
    );
    let expected1 = Balances::from_pairs(&[(User::Alice, 140), (User::Bob, 10)]);

    assert_eq!(end1, expected1);
}

#[test]
fn send_to_same_user() {
    let start = Balances::from_pairs(&[(User::Alice, 100), (User::Bob, 50)]);
    let end = AccountedCurrency::next_state(
        &start,
        &AccountingTransaction::Transfer {
            sender: User::Bob,
            receiver: User::Bob,
            amount: 10,
        },
    );
    let expected = Balances::from_pairs(&[(User::Alice, 100), (User::Bob, 50)]);

    assert_eq!(end, expected);
}

#[test]
fn insufficient_balance_transfer() {
    let start = Balances::from_pairs(&[(User::Alice, 100), (User::Bob, 50)]);
    let end = AccountedCurrency::next_state(
        &start,
        &AccountingTransaction::Transfer {
            sender: User::Bob,
            receiver: User::Alice,
            amount: 60,
        },
    );
    let expected = Balances::from_pairs(&[(User::Alice, 100), (User::Bob, 50)]);

    assert_eq!(end, expected);
}

#[test]
fn sender_not_registered() {
    let start = Balances::from_pairs(&[(User::Alice, 100), (User::Bob, 50)]);
    let end = AccountedCurrency::next_state(
        &start,
        &AccountingTransaction::Transfer {
            sender: User::Charlie,
            receiver: User::Alice,
            amount: 50,
        },
    );
    let expected = Balances::from_pairs(&[(User::Alice, 100), (User::Bob, 50)]);

    assert_eq!(end, expected);
}

#[test]
fn receiver_not_registered() {
    let start = Balances::from_pairs(&[(User::Alice, 100), (User::Bob, 50)]);
    let end = AccountedCurrency::next_state(
        &start,
        &AccountingTransaction::Transfer {
            sender: User::Alice,
            receiver: User::Charlie,
            amount: 50,
        },
    );
    let expected = Balances::from_pairs(&[(User::Alice, 50), (User::Bob, 50), (User::Charlie, 50)]);

    assert_eq!(end, expected);
}

#[test]
fn sender_to_empty_balance() {
    let start = Balances::from_pairs(&[(User::Alice, 100), (User::Bob, 50)]);
    let end = AccountedCurrency::next_state(
        &start,
        &AccountingTransaction::Transfer {
            sender: User::Bob,
            receiver: User::Alice,
            amount: 50,
        },
    );
    let expected = Balances::from_pairs(&[(User::Alice, 150)]);

    assert_eq!(end, expected);
}

#[test]
fn transfer() {
    let start = Balances::from_pairs(&[(User::Alice, 100), (User::Bob, 50)]);
    let end = AccountedCurrency::next_state(
        &start,
        &AccountingTransaction::Transfer {
            sender: User::Bob,
            receiver: User::Charlie,
            amount: 50,
        },
    );
    let expected = Balances::from_pairs(&[(User::Alice, 100), (User::Charlie, 50)]);

    assert_eq!(end, expected);
}

#[test]
fn mint_that_would_overflow_changes_nothing() {
    let start = Balances::from_pairs(&[(User::Alice, u64::MAX)]);
    let end = AccountedCurrency::next_state(
        &start,
        &AccountingTransaction::Mint {
            minter: User::Alice,
            amount: 1,
        },
    );
    assert_eq!(end, start);
}

#[test]
fn transfer_that_would_overflow_changes_nothing() {
    let start = Balances::from_pairs(&[(User::Alice, 10), (User::Bob, u64::MAX)]);
    let end = AccountedCurrency::next_state(
        &start,
        &AccountingTransaction::Transfer {
            sender: User::Alice,
            receiver: User::Bob,
            amount: 1,
        },
    );
    assert_eq!(end, start);
}

#[test]
fn transfer_of_nothing_opens_no_account() {
    let start = Balances::from_pairs(&[(User::Alice, 10)]);
    let end = AccountedCurrency::next_state(
        &start,
        &AccountingTransaction::Transfer {
            sender: User::Alice,
            receiver: User::Charlie,
            amount: 0,
        },
    );
    assert_eq!(end, start);
    assert_eq!(end.get(User::Charlie), None);
    assert_eq!(end.get(User::Alice), Some(10));
}

#[test]
fn later_pairs_override_earlier_ones() {
    let b = Balances::from_pairs(&[(User::Bob, 1), (User::Bob, 2)]);
    assert_eq!(b, Balances::from_pairs(&[(User::Bob, 2)]));
    let mut c = Balances::new();
    c.set(User::Bob, 2);
    assert_eq!(b, c);
    c.remove(User::Bob);
    assert_eq!(c, Balances::new());
}
