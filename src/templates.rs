//! Where document templates live and which template types exist.

use vstd::prelude::*;

verus! {

/// The version of this tool, which also names installed template packages.
pub const DOCGEN_VERSION: &'static str = "0.1.0";

/// The directory of the standard templates inside a project.
pub fn get_local_templates_dir() -> (r: String)
    ensures
        r@ == ".docgen/templates"@,
{
    String::from_str(".docgen/templates")
}

/// The directory of a project's own, forked templates.
pub fn get_custom_templates_dir() -> (r: String)
    ensures
        r@ == "templates"@,
{
    String::from_str("templates")
}

/// The version of this tool.
pub fn get_docgen_version() -> (r: String)
    ensures
        r@ == DOCGEN_VERSION@,
        r@.len() > 0,
{
    proof {
        reveal_strlit("0.1.0");
    }
    String::from_str(DOCGEN_VERSION)
}

/// The names of the standard template types, in alphabetical order.
pub open spec fn standard_template_names() -> Seq<Seq<char>> {
    seq![
        "concept"@,
        "contract"@,
        "credentials"@,
        "credit-note"@,
        "delivery-note"@,
        "documentation"@,
        "invoice"@,
        "letter"@,
        "offer"@,
        "order-confirmation"@,
        "protocol"@,
        "proposal"@,
        "quotation-request"@,
        "reminder"@,
        "sla"@,
        "specification"@,
        "time-sheet"@,
    ]
}

pub open spec fn texts(v: Seq<String>) -> Seq<Seq<char>> {
    v.map_values(|s: String| s@)
}

/// The standard template types.
pub fn get_available_templates() -> (r: Vec<String>)
    ensures
        texts(r@) == standard_template_names(),
{
    let r = vec![
        String::from_str("concept"),
        String::from_str("contract"),
        String::from_str("credentials"),
        String::from_str("credit-note"),
        String::from_str("delivery-note"),
        String::from_str("documentation"),
        String::from_str("invoice"),
        String::from_str("letter"),
        String::from_str("offer"),
        String::from_str("order-confirmation"),
        String::from_str("protocol"),
        String::from_str("proposal"),
        String::from_str("quotation-request"),
        String::from_str("reminder"),
        String::from_str("sla"),
        String::from_str("specification"),
        String::from_str("time-sheet"),
    ];
    assert(texts(r@) =~= standard_template_names());
    r
}

} // verus!
