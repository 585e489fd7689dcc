use ledger_client::error::{IdentifierKind, ParseError};
use ledger_client::ident::{AccountId, FileId, TransactionId};

const BAD_ENTITIES: [&str; 22] = [
    "",
    "0",
    "1001",
    "0.0",
    "0.0.",
    ".0.0",
    "0..0",
    "0.0.0.0",
    "a.b.c",
    "0.0.x",
    "0.0.1001 ",
    " 0.0.1001",
    "0. 0.1001",
    "+0.0.1001",
    "0.0.-1",
    "0.0.1001-abcde",
    "0,0,1001",
    "0.0.1001\n",
    "18446744073709551616.0.0",
    "0.18446744073709551616.0",
    "0.0.18446744073709551616",
    "\u{ff10}.0.1",
];

#[test]
fn account_is_read_from_three_numbers() {
    assert_eq!(AccountId::parse("0.0.1001"), Ok(AccountId::new(0, 0, 1001)));
    assert_eq!(AccountId::parse("1.2.3"), Ok(AccountId { shard: 1, realm: 2, num: 3 }));
    assert_eq!(AccountId::parse("0.0.0"), Ok(AccountId::new(0, 0, 0)));
}

#[test]
fn account_accepts_the_greatest_numbers() {
    let max = "18446744073709551615";
    let text = format!("{}.{}.{}", max, max, max);
    assert_eq!(AccountId::parse(&text), Ok(AccountId::new(u64::MAX, u64::MAX, u64::MAX)));
    assert_eq!(AccountId::new(u64::MAX, u64::MAX, u64::MAX).to_text(), text);
}

#[test]
fn account_rejects_what_is_not_three_numbers() {
    for text in BAD_ENTITIES {
        assert_eq!(
            AccountId::parse(text),
            Err(ParseError::InvalidFormat(IdentifierKind::Account)),
            "{:?}",
            text
        );
    }
}

#[test]
fn account_rejects_the_text_of_a_transaction() {
    assert_eq!(
        AccountId::parse("0.0.1001@1.2"),
        Err(ParseError::InvalidFormat(IdentifierKind::Account))
    );
}

#[test]
fn account_text_is_canonical() {
    assert_eq!(AccountId::new(0, 0, 1001).to_text(), "0.0.1001");
    assert_eq!(AccountId::new(10, 200, 3000).to_text(), "10.200.3000");
}

#[test]
fn account_round_trip_on_canonical_text() {
    for text in ["0.0.1001", "0.0.0", "1.2.3", "10.20.30", "3.0.18446744073709551615"] {
        assert_eq!(AccountId::parse(text).unwrap().to_text(), text);
    }
}

#[test]
fn account_round_trip_strips_leading_zeros() {
    assert_eq!(AccountId::parse("00.000.01001").unwrap().to_text(), "0.0.1001");
    assert_eq!(AccountId::parse("007.0.010").unwrap().to_text(), "7.0.10");
    assert_eq!(
        AccountId::parse("000000000000000000000000018446744073709551615.0.0")
            .unwrap()
            .to_text(),
        "18446744073709551615.0.0"
    );
}

#[test]
fn account_written_then_read_is_unchanged() {
    for id in [
        AccountId::new(0, 0, 0),
        AccountId::new(0, 0, 1001),
        AccountId::new(9, 10, 11),
        AccountId::new(u64::MAX, 0, u64::MAX),
    ] {
        assert_eq!(AccountId::parse(&id.to_text()), Ok(id));
    }
}

#[test]
fn file_is_read_from_three_numbers() {
    assert_eq!(FileId::parse("0.0.102"), Ok(FileId::new(0, 0, 102)));
    assert_eq!(FileId::parse("4.5.6"), Ok(FileId { shard: 4, realm: 5, num: 6 }));
}

#[test]
fn file_rejects_what_is_not_three_numbers() {
    for text in BAD_ENTITIES {
        assert_eq!(
            FileId::parse(text),
            Err(ParseError::InvalidFormat(IdentifierKind::File)),
            "{:?}",
            text
        );
    }
}

#[test]
fn file_round_trip() {
    assert_eq!(FileId::parse("0.0.102").unwrap().to_text(), "0.0.102");
    assert_eq!(FileId::parse("00.00.0102").unwrap().to_text(), "0.0.102");
    let id = FileId::new(1, u64::MAX, 112);
    assert_eq!(id.to_text(), "1.18446744073709551615.112");
    assert_eq!(FileId::parse(&id.to_text()), Ok(id));
}

#[test]
fn transaction_is_read_from_payer_and_moment() {
    let id = TransactionId::parse("0.0.1001@1614550764.968246000").unwrap();
    assert_eq!(id.payer(), AccountId::new(0, 0, 1001));
    assert_eq!(id.seconds(), 1614550764);
    assert_eq!(id.nanos(), 968246000);
    assert_eq!(
        Some(id),
        TransactionId::new(AccountId::new(0, 0, 1001), 1614550764, 968246000)
    );
}

#[test]
fn transaction_new_checks_the_nanoseconds() {
    let payer = AccountId::new(0, 0, 2);
    assert!(TransactionId::new(payer, 0, 0).is_some());
    assert!(TransactionId::new(payer, u64::MAX, 999_999_999).is_some());
    assert_eq!(TransactionId::new(payer, 0, 1_000_000_000), None);
    assert_eq!(TransactionId::new(payer, 5, u32::MAX), None);
}

#[test]
fn transaction_accepts_the_greatest_numbers() {
    let max = "18446744073709551615";
    let text = format!("{}.{}.{}@{}.999999999", max, max, max, max);
    let id = TransactionId::parse(&text).unwrap();
    assert_eq!(id.payer(), AccountId::new(u64::MAX, u64::MAX, u64::MAX));
    assert_eq!(id.seconds(), u64::MAX);
    assert_eq!(id.nanos(), 999_999_999);
}

#[test]
fn transaction_rejects_what_does_not_match() {
    for text in [
        "",
        "bad-id",
        "0.0.1001",
        "0.0.1001@",
        "0.0.1001@5",
        "0.0.1001@5.",
        "0.0.1001@.5",
        "@5.5",
        "0.0@5.5",
        "0.0.1001@5.5.5",
        "0.0.1001@5.5@5.5",
        "0.0.1001-5-5",
        "0.0.1001@5.5?scheduled",
        "0.0.1001@5.5/1",
        "0.0.1001@-5.5",
        "0.0.1001 @5.5",
        "0.0.1001@5.5 ",
        "0.0.1001@5.1000000000",
        "0.0.1001@5.99999999999999999999",
        "0.0.1001@18446744073709551616.0",
        "0.0.18446744073709551616@5.5",
        "0.0.1001@5\u{ff0e}5",
    ] {
        assert_eq!(
            TransactionId::parse(text),
            Err(ParseError::InvalidFormat(IdentifierKind::Transaction)),
            "{:?}",
            text
        );
    }
}

#[test]
fn transaction_text_is_canonical() {
    let id = TransactionId::new(AccountId::new(0, 0, 1001), 1614550764, 123).unwrap();
    assert_eq!(id.to_text(), "0.0.1001@1614550764.123");
    let id = TransactionId::new(AccountId::new(1, 2, 3), 0, 0).unwrap();
    assert_eq!(id.to_text(), "1.2.3@0.0");
}

#[test]
fn transaction_round_trip_on_canonical_text() {
    for text in ["0.0.1001@1614550764.123", "1.2.3@0.0", "0.0.5@18446744073709551615.999999999"] {
        assert_eq!(TransactionId::parse(text).unwrap().to_text(), text);
    }
}

#[test]
fn transaction_round_trip_strips_leading_zeros() {
    assert_eq!(
        TransactionId::parse("0.0.1001@1614550764.000000123").unwrap().to_text(),
        "0.0.1001@1614550764.123"
    );
    assert_eq!(
        TransactionId::parse("00.00.07@0005.0000000000000").unwrap().to_text(),
        "0.0.7@5.0"
    );
}

#[test]
fn transaction_written_then_read_is_unchanged() {
    let moments = [(0u64, 0u32), (1, 1), (1614550764, 968246000), (u64::MAX, 999_999_999)];
    for (seconds, nanos) in moments {
        let id = TransactionId::new(AccountId::new(0, 0, 1001), seconds, nanos).unwrap();
        assert_eq!(TransactionId::parse(&id.to_text()), Ok(id));
    }
}
