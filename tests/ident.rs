use docgen::ident::{format_client_code, format_project_code, padded_number, parse_i64};
use docgen::models::{Client, NewClient, NewProject, Project};

fn client(number: i64) -> Client {
    Client {
        id: 1,
        number,
        name: "Name".to_string(),
        company: None,
        street: None,
        house_number: None,
        postal_code: None,
        city: None,
        country: None,
        email: None,
        phone: None,
        notes: None,
        created_at: String::new(),
    }
}

#[test]
fn client_code_of_seven() {
    assert_eq!(client(7).formatted_number(), "K-007");
    assert_eq!(format_client_code(7), "K-007");
    assert_eq!(format_client_code(1234), "K-1234");
    assert_eq!(format_client_code(0), "K-000");
    assert_eq!(format_client_code(-7), "K--07");
}

#[test]
fn project_codes() {
    let p = Project {
        id: 4,
        number: 2,
        client_id: 1,
        name: "Site".to_string(),
        description: None,
        hourly_rate: Some("85.5".to_string()),
        status: "active".to_string(),
        created_at: String::new(),
    };
    assert_eq!(p.formatted_number(3), "P-003-02");
    assert_eq!(format_project_code(12, 123), "P-012-123");
}

#[test]
fn padding_matches_rust_formatting() {
    for n in [-1000i64, -12, -1, 0, 5, 42, 999, 1000, i64::MAX, i64::MIN] {
        for w in 0..6usize {
            assert_eq!(padded_number(n, w), format!("{:0w$}", n, w = w));
        }
    }
}

#[test]
fn integer_parsing_matches_std() {
    for s in [
        "0", "7", "007", "+5", "-5", "-0", "", "+", "-", "1a", " 1", "K-1", "9223372036854775807",
        "9223372036854775808", "-9223372036854775808", "-9223372036854775809",
        "00000000000000000000000000001",
    ] {
        assert_eq!(parse_i64(s), s.parse::<i64>().ok(), "input {:?}", s);
    }
}

#[test]
fn display_name_prefers_company() {
    let mut c = client(1);
    assert_eq!(c.display_name(), "Name");
    c.company = Some(String::new());
    assert_eq!(c.display_name(), "Name");
    c.company = Some("Acme GmbH".to_string());
    assert_eq!(c.display_name(), "Acme GmbH");
}

#[test]
fn full_address_joins_complete_parts() {
    let mut c = client(1);
    assert_eq!(c.full_address(), "");
    c.street = Some("Hauptstr.".to_string());
    assert_eq!(c.full_address(), "");
    c.house_number = Some("5".to_string());
    assert_eq!(c.full_address(), "Hauptstr. 5");
    c.city = Some("Berlin".to_string());
    assert_eq!(c.full_address(), "Hauptstr. 5");
    c.postal_code = Some("10115".to_string());
    assert_eq!(c.full_address(), "Hauptstr. 5, 10115 Berlin");
    c.street = None;
    assert_eq!(c.full_address(), "10115 Berlin");
}

#[test]
fn defaults_of_new_records() {
    let n = NewClient::default();
    assert_eq!(n.name, "");
    assert_eq!(n.country.as_deref(), Some("Deutschland"));
    assert!(n.company.is_none());
    let p = NewProject::new(3, "Site".to_string());
    assert_eq!(p.client_id, 3);
    assert_eq!(p.status, "active");
    assert!(p.hourly_rate.is_none());
}
