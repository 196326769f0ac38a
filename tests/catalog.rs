use docgen::compile::{compile_args, encrypt_args, EncryptionOptions};
use docgen::doctype::{detect_document_type, document_type_of_lowercase};
use docgen::locale::{t, tf, Locale, LocaleEntry};
use docgen::packages::{get_available_templates, packages_to_update, template_types};
use docgen::templates::{get_custom_templates_dir, get_docgen_version, get_local_templates_dir};

#[test]
fn test_get_local_templates_dir() {
    let dir = get_local_templates_dir();
    assert_eq!(dir, ".docgen/templates");
}

#[test]
fn test_get_custom_templates_dir() {
    let dir = get_custom_templates_dir();
    assert_eq!(dir, "templates");
}

#[test]
fn test_version() {
    let version = docgen::packages::get_docgen_version();
    println!("Current version: {}", version);
    assert!(!version.is_empty());
    assert_eq!(version, get_docgen_version());
}

#[test]
fn standard_template_list() {
    let names = docgen::templates::get_available_templates();
    assert_eq!(names.len(), 17);
    assert_eq!(names[0], "concept");
    assert_eq!(names[16], "time-sheet");
}

#[test]
fn shipped_template_types() {
    let mut types = get_available_templates();
    types.sort();
    assert_eq!(
        types,
        vec!["concept", "credentials", "documentation", "invoice", "offer"]
    );
}

#[test]
fn template_types_dedup_and_skip_common() {
    let paths: Vec<String> = ["a/x.typ", "common/s.typ", "b/y.typ", "a/z.typ", "plain.typ"]
        .iter()
        .map(|s| s.to_string())
        .collect();
    assert_eq!(template_types(&paths), vec!["a", "b"]);
}

#[test]
fn outdated_packages_are_listed() {
    let installed = vec![
        ("docgen-invoice".to_string(), "0.0.9".to_string()),
        ("docgen-offer".to_string(), "0.1.0".to_string()),
        ("other".to_string(), "0.0.1".to_string()),
    ];
    let updates = packages_to_update(&installed, "0.1.0");
    assert_eq!(
        updates,
        vec![(
            "invoice".to_string(),
            "0.0.9".to_string(),
            "0.1.0".to_string()
        )]
    );
}

fn german() -> Locale {
    let entry = |section: &str, key: &str, text: &str| LocaleEntry {
        section: section.to_string(),
        key: key.to_string(),
        text: text.to_string(),
    };
    Locale {
        entries: vec![
            entry("client", "clients", "Kunden"),
            entry("client", "created", "Kunde {} angelegt"),
        ],
    }
}

#[test]
fn test_locale_loading() {
    let locale = german();
    assert_eq!(locale.get("client", "clients"), "Kunden");
}

#[test]
fn test_locale_formatting() {
    let locale = german();
    let result = locale.get_fmt("client", "created", &["K-001"]);
    assert_eq!(result, "Kunde K-001 angelegt");
}

#[test]
fn locale_fallbacks_and_placeholders() {
    let locale = german();
    assert_eq!(t(&locale, "client", "missing"), "missing");
    assert_eq!(t(&locale, "project", "clients"), "clients");
    assert_eq!(tf(&locale, "client", "created", &[]), "Kunde {} angelegt");
    assert_eq!(tf(&locale, "x", "{} and {}", &["a", "b", "c"]), "a and b");
}

#[test]
fn document_types_from_paths() {
    assert_eq!(
        detect_document_type("DOCS/INVOICE_1.JSON").as_deref(),
        Some("invoice")
    );
    assert_eq!(
        detect_document_type("data/Angebot-2024.json").as_deref(),
        Some("offer")
    );
    assert_eq!(
        detect_document_type("x/ZD-01.json").as_deref(),
        Some("credentials")
    );
    assert_eq!(detect_document_type("notes.json"), None);
    assert_eq!(
        document_type_of_lowercase("documents/sla-2024.json").as_deref(),
        Some("sla")
    );
    assert_eq!(document_type_of_lowercase("DOCS/INVOICE.JSON"), None);
}

#[test]
fn typst_arguments_for_data_and_source_files() {
    let data = compile_args("documents/Rechnung-01.json", "out.pdf", false, None, "en");
    assert_eq!(
        data,
        vec![
            "compile",
            "--root",
            ".",
            ".docgen/templates/invoice/default.typ",
            "--input",
            "data=/documents/Rechnung-01.json",
            "--input",
            "company=/data/company.json",
            "--input",
            "locale=/locale/en.json",
            "out.pdf",
        ]
    );
    let forced = compile_args("x/offer.json", "o.pdf", false, Some("letter".to_string()), "de");
    assert_eq!(forced[3], ".docgen/templates/letter/default.typ");
    let unknown = compile_args("x/data.json", "o.pdf", false, None, "de");
    assert_eq!(unknown[3], ".docgen/templates/invoice/default.typ");
    let source = compile_args("doc.typ", "doc.pdf", true, None, "fr");
    assert_eq!(
        source,
        vec![
            "compile",
            "--root",
            ".",
            "doc.typ",
            "--input",
            "company=/data/company.json",
            "--input",
            "locale=/locale/fr.json",
            "doc.pdf",
        ]
    );
}

#[test]
fn qpdf_arguments_restrict_what_is_not_allowed() {
    let options = EncryptionOptions {
        user_password: "pw".to_string(),
        allow_printing: true,
        allow_copying: false,
        allow_modification: false,
    };
    assert_eq!(
        encrypt_args(&options, "in.pdf", "out.pdf"),
        vec![
            "--encrypt",
            "pw",
            "pw",
            "256",
            "--extract=n",
            "--modify=none",
            "--",
            "in.pdf",
            "out.pdf"
        ]
    );
}
