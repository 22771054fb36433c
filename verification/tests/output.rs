use payments_core::{accounts_csv, Account, Amount, ClientId};

fn rows(accounts: Vec<(u16, Account)>) -> Vec<(ClientId, Account)> {
    accounts.into_iter().map(|(c, a)| (ClientId(c), a)).collect()
}

#[test]
fn test_write_single_account() {
    let accounts = rows(vec![(
        1,
        Account {
            available: Amount::new(15, 1),
            held: Amount::new(0, 1),
            locked: false,
        },
    )]);

    let (result, errors) = accounts_csv(&accounts);
    assert!(errors.is_empty());
    assert!(result.contains("client,available,held,total,locked"));
    assert!(result.contains("1,1.5000,0.0000,1.5000,false"));
}

#[test]
fn test_write_multiple_accounts() {
    let accounts = rows(vec![
        (
            1,
            Account {
                available: Amount::new(15, 1),
                held: Amount::new(0, 1),
                locked: false,
            },
        ),
        (
            2,
            Account {
                available: Amount::new(20, 1),
                held: Amount::new(10, 1),
                locked: true,
            },
        ),
    ]);

    let (result, _) = accounts_csv(&accounts);
    let lines: Vec<_> = result.lines().collect();
    assert_eq!(lines[0], "client,available,held,total,locked");
    assert_eq!(lines.len(), 3);
}

#[test]
fn output_test_four_decimal_places() {
    let accounts = rows(vec![(
        1,
        Account {
            available: Amount::new(1, 0),
            held: Amount::new(0, 0),
            locked: false,
        },
    )]);

    let (result, _) = accounts_csv(&accounts);
    assert!(result.contains("1.0000"));
}

#[test]
fn test_total_derived() {
    let accounts = rows(vec![(
        1,
        Account {
            available: Amount::new(30, 1),
            held: Amount::new(20, 1),
            locked: false,
        },
    )]);

    let (result, _) = accounts_csv(&accounts);
    assert!(result.contains("3.0000,2.0000,5.0000"));
}

#[test]
fn test_empty_accounts() {
    let accounts: Vec<(ClientId, Account)> = Vec::new();

    let (result, errors) = accounts_csv(&accounts);
    assert_eq!(result, "client,available,held,total,locked\n");
    assert!(errors.is_empty());
}

#[test]
fn amounts_are_cut_not_rounded_and_signed() {
    let accounts = rows(vec![(
        7,
        Account {
            available: Amount::new(-123456789, 5),
            held: Amount::new(99999, 5),
            locked: true,
        },
    )]);
    let (result, _) = accounts_csv(&accounts);
    assert_eq!(
        result,
        "client,available,held,total,locked\n7,-1234.5678,0.9999,-1233.5679,true\n"
    );
}

#[test]
fn small_negative_prints_minus_zero() {
    let accounts = rows(vec![(
        3,
        Account {
            available: Amount::new(-1, 5),
            held: Amount::zero(),
            locked: false,
        },
    )]);
    let (result, _) = accounts_csv(&accounts);
    assert_eq!(
        result,
        "client,available,held,total,locked\n3,-0.0000,0.0000,-0.0000,false\n"
    );
}

#[test]
fn overflowing_total_is_reported_and_skipped() {
    let accounts = rows(vec![
        (
            5,
            Account {
                available: Amount::max(),
                held: Amount::one(),
                locked: false,
            },
        ),
        (
            6,
            Account {
                available: Amount::new(2, 0),
                held: Amount::zero(),
                locked: false,
            },
        ),
    ]);
    let (result, errors) = accounts_csv(&accounts);
    assert_eq!(
        result,
        "client,available,held,total,locked\n6,2.0000,0.0000,2.0000,false\n"
    );
    assert_eq!(
        errors,
        vec!["error: total overflow for client 5 (available + held overflow)".to_string()]
    );
}

#[test]
fn wide_amounts_are_printed_in_full() {
    // 27 integer digits fit in Display's buffer beside four fractional digits; 28 and 29 are
    // laid out the same way.
    let fits = rows(vec![(
        1,
        Account {
            available: Amount::try_from_parts(999_999_999_999_999_999_999_999_999, 0).unwrap(),
            held: Amount::zero(),
            locked: false,
        },
    )]);
    let (text, _) = accounts_csv(&fits);
    assert!(text.contains("1,999999999999999999999999999.0000,0.0000,"));
    let wide = rows(vec![(
        1,
        Account {
            available: Amount::try_from_parts(1_000_000_000_000_000_000_000_000_000, 0).unwrap(),
            held: Amount::zero(),
            locked: false,
        },
    )]);
    let (text, errors) = accounts_csv(&wide);
    assert!(errors.is_empty());
    assert!(text.contains(
        "1,1000000000000000000000000000.0000,0.0000,1000000000000000000000000000.0000,false"
    ));
    let widest = rows(vec![(
        2,
        Account {
            available: Amount::min(),
            held: Amount::zero(),
            locked: false,
        },
    )]);
    let (text, _) = accounts_csv(&widest);
    assert!(text.contains(
        "2,-79228162514264337593543950335.0000,0.0000,-79228162514264337593543950335.0000,false"
    ));
}
