use csv2beancount::config::Config;
use csv2beancount::config::RuleTable;
use csv2beancount::config::TransactionRule;
use csv2beancount::dates::Date;
use csv2beancount::rules::resolve;

fn sample_config() -> Config {
    Config {
        currency: String::from("EUR"),
        processing_account: String::from("Assets:Bank"),
        default_account: String::from("Expenses:Misc"),
        date_format: String::from("%Y-%m-%d"),
        date: 0,
        amount_in: 1,
        amount_out: 2,
        description: 3,
        payee: None,
        delimiter: None,
        skip: None,
        toggle_sign: None,
        quote: None,
    }
}

#[test]
fn transaction_rule_accessors() {
    let rule = TransactionRule {
        account: Some(String::from("Expenses:Coffee")),
        info: None,
    };
    assert_eq!(rule.account(), Some("Expenses:Coffee"));
    assert_eq!(rule.info(), None);
    let rule = TransactionRule {
        account: None,
        info: Some(String::from("espresso")),
    };
    assert_eq!(rule.account(), None);
    assert_eq!(rule.info(), Some("espresso"));
}

#[test]
fn rule_table_insert_and_lookup() {
    let mut table = RuleTable::new();
    assert!(table.insert(
        String::from("a"),
        TransactionRule {
            account: Some(String::from("Expenses:A")),
            info: None,
        }
    ));
    assert!(table.insert(
        String::from("b"),
        TransactionRule {
            account: None,
            info: Some(String::from("bee")),
        }
    ));
    let hit = table.lookup(&String::from("a")).unwrap();
    assert_eq!(hit.account(), Some("Expenses:A"));
    assert!(table.lookup(&String::from("c")).is_none());
}

#[test]
fn rule_table_refuses_duplicate_key() {
    let mut table = RuleTable::new();
    assert!(table.insert(
        String::from("a"),
        TransactionRule {
            account: Some(String::from("Expenses:A")),
            info: None,
        }
    ));
    assert!(!table.insert(
        String::from("a"),
        TransactionRule {
            account: Some(String::from("Expenses:B")),
            info: None,
        }
    ));
    let hit = table.lookup(&String::from("a")).unwrap();
    assert_eq!(hit.account(), Some("Expenses:A"));
}

#[test]
fn resolve_applies_overrides_and_fallbacks() {
    let mut table = RuleTable::new();
    table.insert(
        String::from("raw"),
        TransactionRule {
            account: Some(String::from("Expenses:Override")),
            info: Some(String::from("better text")),
        },
    );
    let default_account = String::from("Expenses:Misc");
    let (d, a) = resolve(&String::from("raw"), Some(&table), &default_account);
    assert_eq!(d, "better text");
    assert_eq!(a, "Expenses:Override");
    let (d, a) = resolve(&String::from("other"), Some(&table), &default_account);
    assert_eq!(d, "other");
    assert_eq!(a, "Expenses:Misc");
    let (d, a) = resolve(&String::from("raw"), None, &default_account);
    assert_eq!(d, "raw");
    assert_eq!(a, "Expenses:Misc");
}

#[test]
fn config_effective_accessors() {
    let mut cfg = sample_config();
    assert_eq!(cfg.effective_delimiter(), b',');
    assert_eq!(cfg.effective_quote(), b'"');
    assert_eq!(cfg.effective_skip(), 0);
    assert!(!cfg.sign_toggled());
    cfg.delimiter = Some(b';');
    cfg.quote = Some(b'\'');
    cfg.skip = Some(3);
    cfg.toggle_sign = Some(true);
    assert_eq!(cfg.effective_delimiter(), b';');
    assert_eq!(cfg.effective_quote(), b'\'');
    assert_eq!(cfg.effective_skip(), 3);
    assert!(cfg.sign_toggled());
}

#[test]
fn date_renders_iso_with_padding() {
    let d = Date {
        year: 2023,
        month: 1,
        day: 5,
    };
    assert_eq!(d.render(), "2023-01-05");
    let early = Date {
        year: 985,
        month: 12,
        day: 31,
    };
    assert_eq!(early.render(), "0985-12-31");
}
