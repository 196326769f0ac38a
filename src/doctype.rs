//! Guessing a document's template type from its path.

use vstd::prelude::*;

verus! {

/// What `str::to_lowercase` returns for `s`.
pub uninterp spec fn lower_of(s: Seq<char>) -> Seq<char>;

/// Relies on `str::to_lowercase`: the Unicode lowercase mapping of the text,
/// a function of its characters alone.
#[verifier::external_body]
fn lowercase(s: &str) -> (r: String)
    ensures
        r@ == lower_of(s@),
{
    s.to_lowercase()
}

/// `needle` occurs in `hay` as a contiguous run.
pub open spec fn occurs_in(hay: Seq<char>, needle: Seq<char>) -> bool {
    exists|i: int| 0 <= i <= hay.len() - needle.len() && #[trigger] hay.subrange(i, i + needle.len()) == needle
}

/// Some needle occurs in `hay`.
pub open spec fn any_occurs(hay: Seq<char>, needles: Seq<&str>) -> bool {
    exists|j: int| 0 <= j < needles.len() && occurs_in(hay, #[trigger] needles[j]@)
}

fn occurs(hay: &str, needle: &str) -> (r: bool)
    ensures
        r == occurs_in(hay@, needle@),
{
    let n = hay.unicode_len();
    let m = needle.unicode_len();
    if m > n {
        proof {
            assert forall|i: int| !(0 <= i <= hay@.len() - needle@.len()
                && #[trigger] hay@.subrange(i, i + needle@.len()) == needle@) by {}
        }
        return false;
    }
    let mut i: usize = 0;
    while i <= n - m
        invariant
            n == hay@.len(),
            m == needle@.len(),
            m <= n,
            i <= n - m + 1,
            forall|q: int| 0 <= q < i ==> #[trigger] hay@.subrange(q, q + m) != needle@,
        decreases n - m + 1 - i,
    {
        let mut k: usize = 0;
        while k < m && hay.get_char(i + k) == needle.get_char(k)
            invariant
                n == hay@.len(),
                m == needle@.len(),
                i + m <= n,
                k <= m,
                forall|q: int| 0 <= q < k ==> hay@[i + q] == needle@[q],
            decreases m - k,
        {
            k = k + 1;
        }
        if k == m {
            proof {
                assert(hay@.subrange(i as int, i + m) =~= needle@);
            }
            return true;
        }
        proof {
            assert(hay@.subrange(i as int, i + m)[k as int] != needle@[k as int]);
        }
        i = i + 1;
    }
    false
}

fn occurs_any(hay: &str, needles: Vec<&str>) -> (r: bool)
    ensures
        r == any_occurs(hay@, needles@),
{
    let mut j: usize = 0;
    while j < needles.len()
        invariant
            j <= needles@.len(),
            forall|q: int| 0 <= q < j ==> !occurs_in(hay@, #[trigger] needles@[q]@),
        decreases needles@.len() - j,
    {
        if occurs(hay, needles[j]) {
            return true;
        }
        j = j + 1;
    }
    false
}

/// The template type that a lowercased path suggests: the first rule, in
/// this order, with a marker that occurs in the path.
pub open spec fn document_type_for(s: Seq<char>) -> Option<Seq<char>> {
    if any_occurs(s, seq!["invoice", "rechnung", "/re-"]) {
        Some("invoice"@)
    } else if any_occurs(s, seq!["offer", "angebot", "/an-"]) {
        Some("offer"@)
    } else if any_occurs(s, seq!["letter", "brief", "/br-"]) {
        Some("letter"@)
    } else if any_occurs(s, seq!["credit-note", "credit_note", "gutschrift", "/gs-"]) {
        Some("credit-note"@)
    } else if any_occurs(s, seq!["reminder", "mahnung", "/m"]) {
        Some("reminder"@)
    } else if any_occurs(s, seq!["delivery-note", "delivery_note", "lieferschein", "/ls-"]) {
        Some("delivery-note"@)
    } else if any_occurs(
        s,
        seq!["order-confirmation", "order_confirmation", "auftragsbestätigung", "/ab-"],
    ) {
        Some("order-confirmation"@)
    } else if any_occurs(
        s,
        seq!["time-sheet", "time_sheet", "timesheet", "stundenzettel", "/ts-"],
    ) {
        Some("time-sheet"@)
    } else if any_occurs(
        s,
        seq!["quotation-request", "quotation_request", "angebotsanfrage", "/anf-"],
    ) {
        Some("quotation-request"@)
    } else if any_occurs(s, seq!["credential", "zugang", "/zd-"]) {
        Some("credentials"@)
    } else if any_occurs(s, seq!["concept", "konzept", "/ko-"]) {
        Some("concept"@)
    } else if any_occurs(s, seq!["documentation", "dokumentation", "/dok-"]) {
        Some("documentation"@)
    } else if any_occurs(s, seq!["contract", "vertrag", "/vtr-"]) {
        Some("contract"@)
    } else if any_occurs(s, seq!["protocol", "protokoll", "/prot-"]) {
        Some("protocol"@)
    } else if any_occurs(s, seq!["specification", "spezifikation", "/spec-"]) {
        Some("specification"@)
    } else if any_occurs(s, seq!["proposal", "vorschlag", "/pro-"]) {
        Some("proposal"@)
    } else if any_occurs(s, seq!["sla", "/sla-"]) {
        Some("sla"@)
    } else {
        None
    }
}

pub open spec fn text_of(r: Option<String>) -> Option<Seq<char>> {
    match r {
        Some(s) => Some(s@),
        None => None,
    }
}

/// The template type that an already lowercased path suggests.
pub fn document_type_of_lowercase(s: &str) -> (r: Option<String>)
    ensures
        text_of(r) == document_type_for(s@),
{
    let t = if occurs_any(s, vec!["invoice", "rechnung", "/re-"]) {
        "invoice"
    } else if occurs_any(s, vec!["offer", "angebot", "/an-"]) {
        "offer"
    } else if occurs_any(s, vec!["letter", "brief", "/br-"]) {
        "letter"
    } else if occurs_any(s, vec!["credit-note", "credit_note", "gutschrift", "/gs-"]) {
        "credit-note"
    } else if occurs_any(s, vec!["reminder", "mahnung", "/m"]) {
        "reminder"
    } else if occurs_any(s, vec!["delivery-note", "delivery_note", "lieferschein", "/ls-"]) {
        "delivery-note"
    } else if occurs_any(
        s,
        vec!["order-confirmation", "order_confirmation", "auftragsbestätigung", "/ab-"],
    ) {
        "order-confirmation"
    } else if occurs_any(
        s,
        vec!["time-sheet", "time_sheet", "timesheet", "stundenzettel", "/ts-"],
    ) {
        "time-sheet"
    } else if occurs_any(
        s,
        vec!["quotation-request", "quotation_request", "angebotsanfrage", "/anf-"],
    ) {
        "quotation-request"
    } else if occurs_any(s, vec!["credential", "zugang", "/zd-"]) {
        "credentials"
    } else if occurs_any(s, vec!["concept", "konzept", "/ko-"]) {
        "concept"
    } else if occurs_any(s, vec!["documentation", "dokumentation", "/dok-"]) {
        "documentation"
    } else if occurs_any(s, vec!["contract", "vertrag", "/vtr-"]) {
        "contract"
    } else if occurs_any(s, vec!["protocol", "protokoll", "/prot-"]) {
        "protocol"
    } else if occurs_any(s, vec!["specification", "spezifikation", "/spec-"]) {
        "specification"
    } else if occurs_any(s, vec!["proposal", "vorschlag", "/pro-"]) {
        "proposal"
    } else if occurs_any(s, vec!["sla", "/sla-"]) {
        "sla"
    } else {
        return None;
    };
    Some(String::from_str(t))
}

/// The template type that a document's path suggests, matched without
/// regard to case.
pub fn detect_document_type(path: &str) -> (r: Option<String>)
    ensures
        text_of(r) == document_type_for(lower_of(path@)),
{
    let lower = lowercase(path);
    document_type_of_lowercase(lower.as_str())
}

} // verus!
