//! The records kept by the registries and their derived display values.

use vstd::prelude::*;
use crate::ident::{client_code, format_client_code, format_project_code, project_code};

verus! {

/// A client record as stored.
#[derive(Debug, Clone)]
pub struct Client {
    pub id: i64,
    pub number: i64,
    pub name: String,
    pub company: Option<String>,
    pub street: Option<String>,
    pub house_number: Option<String>,
    pub postal_code: Option<String>,
    pub city: Option<String>,
    pub country: Option<String>,
    pub email: Option<String>,
    pub phone: Option<String>,
    pub notes: Option<String>,
    pub created_at: String,
}

/// The caller-supplied fields of a client about to be added.
#[derive(Debug, Clone)]
pub struct NewClient {
    pub name: String,
    pub company: Option<String>,
    pub street: Option<String>,
    pub house_number: Option<String>,
    pub postal_code: Option<String>,
    pub city: Option<String>,
    pub country: Option<String>,
    pub email: Option<String>,
    pub phone: Option<String>,
    pub notes: Option<String>,
}

/// A project record as stored. The hourly rate is kept as the decimal text
/// it was given in.
#[derive(Debug, Clone)]
pub struct Project {
    pub id: i64,
    pub number: i64,
    pub client_id: i64,
    pub name: String,
    pub description: Option<String>,
    pub hourly_rate: Option<String>,
    pub status: String,
    pub created_at: String,
}

/// The caller-supplied fields of a project about to be added.
#[derive(Debug, Clone)]
pub struct NewProject {
    pub client_id: i64,
    pub name: String,
    pub description: Option<String>,
    pub hourly_rate: Option<String>,
    pub status: String,
}

/// Company if present and non-empty, else the name.
pub open spec fn display_name_of(c: Client) -> Seq<char> {
    match c.company {
        Some(company) => if company@.len() > 0 {
            company@
        } else {
            c.name@
        },
        None => c.name@,
    }
}

/// Two optional parts joined by a space, present only when both are.
pub open spec fn spaced_pair(a: Option<String>, b: Option<String>) -> Option<Seq<char>> {
    match (a, b) {
        (Some(x), Some(y)) => Some(x@ + seq![' '] + y@),
        _ => None,
    }
}

/// Street and house number, then postal code and city, joined by `", "`,
/// each part present only when both of its fields are.
pub open spec fn address_of(c: Client) -> Seq<char> {
    let first = spaced_pair(c.street, c.house_number);
    let second = spaced_pair(c.postal_code, c.city);
    match (first, second) {
        (Some(f), Some(s)) => f + seq![',', ' '] + s,
        (Some(f), None) => f,
        (None, Some(s)) => s,
        (None, None) => Seq::empty(),
    }
}

fn copy_text(t: &Option<String>) -> (r: Option<String>)
    ensures
        r == *t,
{
    match t {
        Some(s) => Some(s.clone()),
        None => None,
    }
}

fn append_pair(out: &mut String, a: &String, b: &String)
    ensures
        final(out)@ == old(out)@ + a@ + seq![' '] + b@,
{
    proof {
        reveal_strlit(" ");
    }
    out.append(a.as_str());
    out.append(" ");
    out.append(b.as_str());
}

impl Client {
    /// A field-for-field copy.
    pub fn duplicate(&self) -> (r: Client)
        ensures
            r == *self,
    {
        Client {
            id: self.id,
            number: self.number,
            name: self.name.clone(),
            company: copy_text(&self.company),
            street: copy_text(&self.street),
            house_number: copy_text(&self.house_number),
            postal_code: copy_text(&self.postal_code),
            city: copy_text(&self.city),
            country: copy_text(&self.country),
            email: copy_text(&self.email),
            phone: copy_text(&self.phone),
            notes: copy_text(&self.notes),
            created_at: self.created_at.clone(),
        }
    }

    /// The name shown for the client: its company when that is non-empty.
    pub fn display_name(&self) -> (r: String)
        ensures
            r@ == display_name_of(*self),
    {
        match &self.company {
            Some(company) => {
                if !company.as_str().is_empty() {
                    return company.clone();
                }
            },
            None => {},
        }
        self.name.clone()
    }

    /// `K-` and the number padded to three digits.
    pub fn formatted_number(&self) -> (r: String)
        ensures
            r@ == client_code(self.number as int),
    {
        format_client_code(self.number)
    }

    /// Street and house number, then postal code and city, comma-joined.
    pub fn full_address(&self) -> (r: String)
        ensures
            r@ == address_of(*self),
    {
        let mut out = String::new();
        let mut has_first = false;
        match (&self.street, &self.house_number) {
            (Some(street), Some(num)) => {
                append_pair(&mut out, street, num);
                has_first = true;
            },
            _ => {},
        }
        match (&self.postal_code, &self.city) {
            (Some(postal), Some(city)) => {
                if has_first {
                    proof {
                        reveal_strlit(", ");
                    }
                    out.append(", ");
                }
                append_pair(&mut out, postal, city);
            },
            _ => {},
        }
        proof {
            assert(out@ =~= address_of(*self));
        }
        out
    }
}

impl Default for NewClient {
    fn default() -> (r: NewClient)
        ensures
            r.name@.len() == 0,
            r.company.is_none(),
            r.street.is_none(),
            r.house_number.is_none(),
            r.postal_code.is_none(),
            r.city.is_none(),
            r.country.is_some() && r.country.unwrap()@ == "Deutschland"@,
            r.email.is_none(),
            r.phone.is_none(),
            r.notes.is_none(),
    {
        NewClient {
            name: String::new(),
            company: None,
            street: None,
            house_number: None,
            postal_code: None,
            city: None,
            country: Some(String::from_str("Deutschland")),
            email: None,
            phone: None,
            notes: None,
        }
    }
}

impl Project {
    /// A field-for-field copy.
    pub fn duplicate(&self) -> (r: Project)
        ensures
            r == *self,
    {
        Project {
            id: self.id,
            number: self.number,
            client_id: self.client_id,
            name: self.name.clone(),
            description: copy_text(&self.description),
            hourly_rate: copy_text(&self.hourly_rate),
            status: self.status.clone(),
            created_at: self.created_at.clone(),
        }
    }

    /// `P-`, the owning client's number (three digits), `-`, and this
    /// project's number (two digits).
    pub fn formatted_number(&self, client_number: i64) -> (r: String)
        ensures
            r@ == project_code(client_number as int, self.number as int),
    {
        format_project_code(client_number, self.number)
    }
}

impl NewProject {
    /// A project for `client_id` named `name`, with status `active` and no
    /// description or rate.
    pub fn new(client_id: i64, name: String) -> (r: NewProject)
        ensures
            r.client_id == client_id,
            r.name == name,
            r.description.is_none(),
            r.hourly_rate.is_none(),
            r.status@ == "active"@,
    {
        NewProject {
            client_id,
            name,
            description: None,
            hourly_rate: None,
            status: String::from_str("active"),
        }
    }
}

} // verus!
