use csv2beancount::config::Config;
use csv2beancount::convert::convert;
use csv2beancount::num::digits_string;
use csv2beancount::num::padded_string;
use csv2beancount::transaction::build_transaction;

fn base_config() -> Config {
    Config {
        currency: String::from("USD"),
        processing_account: String::from("Assets:Checking"),
        default_account: String::from("Expenses:Unknown"),
        date_format: String::from("%Y-%m-%d"),
        date: 0,
        amount_in: 1,
        amount_out: 2,
        description: 3,
        payee: None,
        delimiter: None,
        skip: None,
        toggle_sign: None,
        quote: None,
    }
}

fn row(fields: &[&str]) -> Vec<String> {
    fields.iter().map(|f| String::from(*f)).collect()
}

#[test]
fn build_and_render_one_row() {
    let cfg = base_config();
    let r = row(&["2023-01-05", "12.50", "", "Coffee Shop"]);
    let t = build_transaction(&r, &cfg, None).unwrap();
    assert_eq!(t.date.year, 2023);
    assert_eq!(t.date.month, 1);
    assert_eq!(t.date.day, 5);
    assert_eq!(t.description, "Coffee Shop");
    assert_eq!(t.payee, None);
    assert!(!t.magnitude.negative);
    assert_eq!(t.magnitude.units, 1250);
    assert_eq!(t.magnitude.scale, 2);
    assert_eq!(
        t.render(),
        "2023-01-05 * \"Coffee Shop\"\n  Assets:Checking 12.50 USD\n  Expenses:Unknown -12.50 USD"
    );
}

#[test]
fn convert_rows_in_input_order() {
    let cfg = base_config();
    let rows = vec![
        row(&["2023-01-05", "1.00", "", "First"]),
        row(&["2023-01-06", "2.00", "", "Second"]),
    ];
    let out = convert(&rows, &cfg, None).unwrap();
    let first = out.find("First").unwrap();
    let second = out.find("Second").unwrap();
    assert!(first < second);
}

#[test]
fn large_amount_is_rendered_exactly() {
    let cfg = base_config();
    let r = row(&["2023-01-05", "123456789.123456789", "", "Big"]);
    let t = build_transaction(&r, &cfg, None).unwrap();
    assert_eq!(t.magnitude.units, 123456789123456789);
    assert_eq!(t.magnitude.scale, 9);
    assert!(t.render().contains("  Assets:Checking 123456789.123456789 USD"));
    assert!(t.render().contains("  Expenses:Unknown -123456789.123456789 USD"));
}

#[test]
fn digit_strings_and_padding() {
    assert_eq!(digits_string(0), "0");
    assert_eq!(digits_string(907), "907");
    assert_eq!(padded_string(7, 4), "0007");
    assert_eq!(padded_string(12345, 4), "12345");
}
