//! Resolution of the references users type: `K-007`, `7`, `P-007-02`.

use vstd::prelude::*;
use crate::clients::{ClientStore, first_with_number, has_client_id, has_client_number};
use crate::error::StoreError;
use crate::ident::{parse_i64, parse_int};
use crate::models::{Client, Project};
use crate::projects::ProjectStore;

verus! {

/// Starts with `K-` or `k-`.
pub open spec fn k_prefixed(s: Seq<char>) -> bool {
    s.len() >= 2 && (s[0] == 'K' || s[0] == 'k') && s[1] == '-'
}

/// `target` is the id that the client reference `input` resolves to. A bare
/// integer is matched against display numbers first (the first client with
/// that number) and, when none has it, against ids. A `K-`/`k-` prefixed
/// integer is matched against display numbers only.
pub open spec fn client_ref_target(cs: Seq<Client>, input: Seq<char>, target: i64) -> bool {
    if parse_int(input).is_some() {
        let n = parse_int(input).unwrap();
        if has_client_number(cs, n) {
            exists|i: int| #[trigger] first_with_number(cs, n, i) && cs[i].id == target
        } else {
            has_client_id(cs, target) && target == n
        }
    } else {
        let m = parse_int(input.subrange(2, input.len() as int));
        &&& k_prefixed(input)
        &&& m.is_some()
        &&& exists|i: int| #[trigger] first_with_number(cs, m.unwrap(), i) && cs[i].id == target
    }
}

pub open spec fn client_ref_resolves(cs: Seq<Client>, input: Seq<char>) -> bool {
    exists|t: i64| client_ref_target(cs, input, t)
}

proof fn lemma_k_form_target(cs: Seq<Client>, input: Seq<char>, n: int, t: i64, i: int)
    requires
        parse_int(input).is_none(),
        k_prefixed(input),
        parse_int(input.subrange(2, input.len() as int)) == Some(n),
        first_with_number(cs, n, i),
        cs[i].id == t,
    ensures
        client_ref_target(cs, input, t),
{
    let m = parse_int(input.subrange(2, input.len() as int));
    assert(m.unwrap() == n);
    assert(first_with_number(cs, m.unwrap(), i) && cs[i].id == t);
    assert(exists|q: int| #[trigger] first_with_number(cs, m.unwrap(), q) && cs[q].id == t);
}

fn first_number_id(store: &ClientStore, n: i64) -> (r: Option<i64>)
    ensures
        match r {
            Some(t) => exists|i: int| #[trigger] first_with_number(store@, n as int, i) && store@[i].id == t,
            None => !has_client_number(store@, n as int),
        },
{
    match store.get_by_number(n) {
        Some(c) => Some(c.id),
        None => None,
    }
}

/// Resolves a client reference (`7`, `K-007`, `k-7`) to the client's id.
pub fn parse_client_id(store: &ClientStore, input: &str) -> (r: Result<i64, StoreError>)
    ensures
        match r {
            Ok(t) => client_ref_target(store@, input@, t),
            Err(e) => (e matches StoreError::ClientNotFound(s) && s@ == input@)
                && !client_ref_resolves(store@, input@),
        },
{
    match parse_i64(input) {
        Some(n) => {
            match first_number_id(store, n) {
                Some(t) => {
                    return Ok(t);
                },
                None => {},
            }
            match store.get(n) {
                Some(c) => {
                    return Ok(c.id);
                },
                None => {},
            }
            proof {
                assert forall|t: i64| !client_ref_target(store@, input@, t) by {}
            }
            return Err(StoreError::ClientNotFound(input.to_owned()));
        },
        None => {},
    }
    let len = input.unicode_len();
    if len >= 2 {
        let c0 = input.get_char(0);
        let c1 = input.get_char(1);
        if (c0 == 'K' || c0 == 'k') && c1 == '-' {
            let rest = input.substring_char(2, len);
            match parse_i64(rest) {
                Some(n) => {
                    match first_number_id(store, n) {
                        Some(t) => {
                            proof {
                                assert(k_prefixed(input@));
                                assert(parse_int(input@).is_none());
                                assert(parse_int(input@.subrange(2, input@.len() as int)) == Some(
                                    n as int,
                                ));
                                let i = choose|i: int|
                                    first_with_number(store@, n as int, i) && store@[i].id == t;
                                lemma_k_form_target(store@, input@, n as int, t, i);
                            }
                            return Ok(t);
                        },
                        None => {},
                    }
                },
                None => {},
            }
        }
    }
    proof {
        assert forall|t: i64| !client_ref_target(store@, input@, t) by {
            if k_prefixed(input@) {
                if let Some(n) = parse_int(input@.subrange(2, input@.len() as int)) {
                    if exists|i: int| #[trigger] first_with_number(store@, n, i) && store@[i].id == t {
                        let i = choose|i: int| first_with_number(store@, n, i) && store@[i].id == t;
                        assert(has_client_number(store@, n));
                    }
                }
            }
        }
    }
    Err(StoreError::ClientNotFound(input.to_owned()))
}

/// Drops a leading `P-`, if there is one.
pub open spec fn strip_p_prefix(s: Seq<char>) -> Seq<char> {
    if s.len() >= 2 && s[0] == 'P' && s[1] == '-' {
        s.subrange(2, s.len() as int)
    } else {
        s
    }
}

/// `k` is the only position of `-` in `s`.
pub open spec fn sole_dash_at(s: Seq<char>, k: int) -> bool {
    0 <= k < s.len() && s[k] == '-' && forall|j: int| 0 <= j < s.len() && j != k ==> s[j] != '-'
}

/// The client number and project number written in a project reference:
/// after an optional leading `P-`, exactly two integers separated by one `-`.
pub open spec fn project_ref_parts(s: Seq<char>) -> Option<(int, int)> {
    let rest = strip_p_prefix(s);
    if exists|k: int| sole_dash_at(rest, k) {
        let k = choose|k: int| sole_dash_at(rest, k);
        match (parse_int(rest.subrange(0, k)), parse_int(rest.subrange(k + 1, rest.len() as int))) {
            (Some(a), Some(b)) => Some((a, b)),
            _ => None,
        }
    } else {
        None
    }
}

/// Reads the client number and project number of a `P-XXX-YY` reference.
pub fn parse_project_ref(reference: &str) -> (r: Result<(i64, i64), StoreError>)
    ensures
        match r {
            Ok((a, b)) => project_ref_parts(reference@) == Some((a as int, b as int)),
            Err(e) => (e matches StoreError::InvalidReferenceFormat(t) && t@ == reference@)
                && project_ref_parts(reference@).is_none(),
        },
{
    let len = reference.unicode_len();
    let i: usize = if len >= 2 && reference.get_char(0) == 'P' && reference.get_char(1) == '-' {
        2
    } else {
        0
    };
    assert(reference@.subrange(0, len as int) =~= reference@);
    let rest = reference.substring_char(i, len);
    assert(strip_p_prefix(reference@) == rest@);
    let n = rest.unicode_len();
    let mut dashes: usize = 0;
    let mut dash_at: usize = 0;
    let mut j: usize = 0;
    while j < n
        invariant
            n == rest@.len(),
            j <= n,
            dashes <= j,
            dashes == 0 ==> forall|q: int| 0 <= q < j ==> rest@[q] != '-',
            dashes == 1 ==> dash_at < j && sole_dash_at(rest@.subrange(0, j as int), dash_at as int),
            dashes >= 2 ==> !exists|k: int| sole_dash_at(rest@, k),
        decreases n - j,
    {
        if rest.get_char(j) == '-' {
            if dashes == 0 {
                dash_at = j;
                dashes = 1;
            } else if dashes == 1 {
                proof {
                    assert forall|k: int| !sole_dash_at(rest@, k) by {
                        if 0 <= k < n && k != j {
                            assert(rest@[j as int] == '-');
                        } else if k == j {
                            assert(rest@[dash_at as int] == rest@.subrange(0, j as int)[dash_at as int]);
                        }
                    }
                }
                dashes = 2;
            }
        }
        j = j + 1;
        proof {
            if dashes == 1 {
                assert forall|q: int| 0 <= q < j && q != dash_at implies rest@.subrange(0, j as int)[q] != '-' by {
                    if q < j - 1 {
                        assert(rest@.subrange(0, j as int)[q] == rest@.subrange(0, j - 1)[q]);
                    }
                }
            }
        }
    }
    if dashes != 1 {
        return Err(StoreError::InvalidReferenceFormat(reference.to_owned()));
    }
    assert(rest@.subrange(0, n as int) =~= rest@);
    assert(sole_dash_at(rest@, dash_at as int));
    proof {
        let k = choose|k: int| sole_dash_at(rest@, k);
        assert(k == dash_at);
    }
    let first = rest.substring_char(0, dash_at);
    let second = rest.substring_char(dash_at + 1, n);
    match (parse_i64(first), parse_i64(second)) {
        (Some(a), Some(b)) => Ok((a, b)),
        _ => Err(StoreError::InvalidReferenceFormat(reference.to_owned())),
    }
}

/// `j` is the first position of a project of client `client_id` numbered `number`.
pub open spec fn first_project_at(ps: Seq<Project>, client_id: i64, number: int, j: int) -> bool {
    0 <= j < ps.len() && ps[j].client_id == client_id && ps[j].number == number && forall|q: int|
        0 <= q < j ==> !(ps[q].client_id == client_id && ps[q].number == number)
}

/// `target` is the id of the project that the reference `input` names: the
/// first project, of the first client holding the written client number,
/// with the written project number.
pub open spec fn project_ref_target(
    cs: Seq<Client>,
    ps: Seq<Project>,
    input: Seq<char>,
    target: i64,
) -> bool {
    let parts = project_ref_parts(input);
    &&& parts.is_some()
    &&& exists|i: int, j: int|
        #[trigger] first_with_number(cs, parts.unwrap().0, i) && #[trigger] first_project_at(
            ps,
            cs[i].id,
            parts.unwrap().1,
            j,
        ) && ps[j].id == target
}

pub open spec fn project_ref_resolves(cs: Seq<Client>, ps: Seq<Project>, input: Seq<char>) -> bool {
    exists|t: i64| project_ref_target(cs, ps, input, t)
}

proof fn lemma_project_target(
    cs: Seq<Client>,
    ps: Seq<Project>,
    input: Seq<char>,
    cn: int,
    pn: int,
    i: int,
    j: int,
)
    requires
        project_ref_parts(input) == Some((cn, pn)),
        first_with_number(cs, cn, i),
        first_project_at(ps, cs[i].id, pn, j),
    ensures
        project_ref_target(cs, ps, input, ps[j].id),
{
    let parts = project_ref_parts(input);
    assert(parts.unwrap().0 == cn && parts.unwrap().1 == pn);
    assert(first_with_number(cs, parts.unwrap().0, i) && first_project_at(
        ps,
        cs[i].id,
        parts.unwrap().1,
        j,
    ));
}

fn find_project_index(projects: &ProjectStore, client_id: i64, number: i64) -> (r: Option<usize>)
    ensures
        match r {
            Some(j) => first_project_at(projects@, client_id, number as int, j as int),
            None => forall|q: int|
                0 <= q < projects@.len() ==> !(projects@[q].client_id == client_id
                    && projects@[q].number == number),
        },
{
    let all = projects.list();
    let mut j: usize = 0;
    while j < all.len()
        invariant
            all@ == projects@,
            j <= all@.len(),
            forall|q: int|
                0 <= q < j ==> !(all@[q].client_id == client_id && all@[q].number == number),
        decreases all@.len() - j,
    {
        if all[j].client_id == client_id && all[j].number == number {
            return Some(j);
        }
        j = j + 1;
    }
    None
}

/// Resolves a project reference `P-XXX-YY`, where `XXX` is the owning
/// client's display number and `YY` the project's number, to the project's id.
pub fn resolve_project_ref(projects: &ProjectStore, clients: &ClientStore, reference: &str) -> (r:
    Result<i64, StoreError>)
    ensures
        match r {
            Ok(t) => project_ref_target(clients@, projects@, reference@, t),
            Err(e) => !project_ref_resolves(clients@, projects@, reference@) && (if project_ref_parts(
                reference@,
            ).is_none() {
                e matches StoreError::InvalidReferenceFormat(t) && t@ == reference@
            } else {
                e matches StoreError::ProjectNotFound(t) && t@ == reference@
            }),
        },
{
    let (cn, pn) = match parse_project_ref(reference) {
        Ok(parts) => parts,
        Err(e) => {
            return Err(e);
        },
    };
    match clients.get_by_number(cn) {
        None => {
            proof {
                assert forall|t: i64| !project_ref_target(clients@, projects@, reference@, t) by {
                    if exists|i: int, j: int|
                        first_with_number(clients@, cn as int, i) && first_project_at(
                            projects@,
                            clients@[i].id,
                            pn as int,
                            j,
                        ) && projects@[j].id == t {
                        let i = choose|i: int| first_with_number(clients@, cn as int, i);
                        assert(has_client_number(clients@, cn as int));
                    }
                }
            }
            Err(StoreError::ProjectNotFound(reference.to_owned()))
        },
        Some(c) => {
            let ghost ci = choose|i: int| first_with_number(clients@, cn as int, i) && clients@[i] == c;
            match find_project_index(projects, c.id, pn) {
                Some(j) => {
                    let all = projects.list();
                    proof {
                        assert(first_with_number(clients@, cn as int, ci));
                        assert(first_project_at(projects@, clients@[ci].id, pn as int, j as int));
                        assert(projects@[j as int].id == all@[j as int].id);
                        lemma_project_target(
                            clients@,
                            projects@,
                            reference@,
                            cn as int,
                            pn as int,
                            ci,
                            j as int,
                        );
                    }
                    Ok(all[j].id)
                },
                None => {
                    proof {
                        assert forall|t: i64| !project_ref_target(clients@, projects@, reference@, t) by {
                            if exists|i: int, j: int|
                                first_with_number(clients@, cn as int, i) && first_project_at(
                                    projects@,
                                    clients@[i].id,
                                    pn as int,
                                    j,
                                ) && projects@[j].id == t {
                                let (i, j) = choose|i: int, j: int|
                                    first_with_number(clients@, cn as int, i) && first_project_at(
                                        projects@,
                                        clients@[i].id,
                                        pn as int,
                                        j,
                                    ) && projects@[j].id == t;
                                assert(i == ci);
                            }
                        }
                    }
                    Err(StoreError::ProjectNotFound(reference.to_owned()))
                },
            }
        },
    }
}

} // verus!
