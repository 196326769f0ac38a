//! Properties of the registries that span several operations.

use vstd::prelude::*;
use crate::clients::{
    client_add_step, client_delete_step, client_from, client_ids_distinct,
    client_numbers_distinct, first_with_number, has_client_id, top_client_id,
};
use crate::counters::Counters;
use crate::error::StoreError;
use crate::ident::{client_code, digits_value, parse_int, sign_len, all_digits};
use crate::models::{Client, NewClient, NewProject, Project};
use crate::projects::{
    lemma_owned_by_empty, lemma_top_number_bounds, one_past, project_add_step,
    project_delete_step, project_numbers_distinct_per_client, top_number_for, top_project_id,
};
use crate::refs::client_ref_target;

verus! {

proof fn lemma_counter_runs(
    stores: Seq<Seq<Client>>,
    counters: Seq<Counters>,
    news: Seq<NewClient>,
    stamps: Seq<String>,
    results: Seq<Result<Client, StoreError>>,
    k: int,
)
    requires
        stores.len() == news.len() + 1,
        counters.len() == news.len() + 1,
        stamps.len() == news.len(),
        results.len() == news.len(),
        news.len() < i64::MAX,
        stores[0] == Seq::<Client>::empty(),
        counters[0].client == 0,
        forall|q: int|
            0 <= q < news.len() ==> #[trigger] client_add_step(
                stores[q],
                counters[q],
                news[q],
                stamps[q],
                results[q],
                stores[q + 1],
                counters[q + 1],
            ),
        0 <= k <= news.len(),
    ensures
        counters[k].client == k,
        k == 0 ==> top_client_id(stores[k]).is_none(),
        k > 0 ==> top_client_id(stores[k]) == Some(k as i64),
        forall|q: int| 0 <= q < k ==> (#[trigger] results[q]) == Ok::<Client, StoreError>(
            client_from(news[q], (q + 1) as i64, (q + 1) as i64, stamps[q]),
        ),
    decreases k,
{
    if k > 0 {
        lemma_counter_runs(stores, counters, news, stamps, results, k - 1);
        assert(client_add_step(
            stores[k - 1],
            counters[k - 1],
            news[k - 1],
            stamps[k - 1],
            results[k - 1],
            stores[k],
            counters[k],
        ));
        assert(stores[k].drop_last() =~= stores[k - 1]);
    }
}

/// Numbering is monotonic: starting from an empty registry and a client
/// counter at 0, a run of adds succeeds and the n-th add returns number n
/// (and id n).
pub proof fn lemma_sequential_client_numbers(
    stores: Seq<Seq<Client>>,
    counters: Seq<Counters>,
    news: Seq<NewClient>,
    stamps: Seq<String>,
    results: Seq<Result<Client, StoreError>>,
)
    requires
        stores.len() == news.len() + 1,
        counters.len() == news.len() + 1,
        stamps.len() == news.len(),
        results.len() == news.len(),
        news.len() < i64::MAX,
        stores[0] == Seq::<Client>::empty(),
        counters[0].client == 0,
        forall|q: int|
            0 <= q < news.len() ==> #[trigger] client_add_step(
                stores[q],
                counters[q],
                news[q],
                stamps[q],
                results[q],
                stores[q + 1],
                counters[q + 1],
            ),
    ensures
        forall|q: int|
            0 <= q < news.len() ==> (#[trigger] results[q]).is_ok() && results[q].unwrap().number
                == q + 1 && results[q].unwrap().id == q + 1,
{
    lemma_counter_runs(stores, counters, news, stamps, results, news.len() as int);
}

/// When no record references a client, it has no largest project number.
proof fn lemma_top_number_none(ps: Seq<Project>, client_id: i64)
    requires
        forall|i: int| 0 <= i < ps.len() ==> ps[i].client_id != client_id,
    ensures
        top_number_for(ps, client_id).is_none(),
    decreases ps.len(),
{
    if ps.len() > 0 {
        assert forall|i: int| 0 <= i < ps.len() - 1 implies ps.drop_last()[i].client_id
            != client_id by {
            assert(ps.drop_last()[i] == ps[i]);
        }
        lemma_top_number_none(ps.drop_last(), client_id);
    }
}

/// Project numbering restarts per client: when neither of two distinct,
/// existing clients A and B owns a project, adding one project to A and then
/// one to B succeeds and numbers both 1 (ids permitting two more records).
pub proof fn lemma_per_client_reset(
    projects: Seq<Project>,
    clients: Seq<Client>,
    a: NewProject,
    b: NewProject,
    stamp_a: String,
    stamp_b: String,
    ra: Result<Project, StoreError>,
    after_a: Seq<Project>,
    rb: Result<Project, StoreError>,
    after_b: Seq<Project>,
)
    requires
        a.client_id != b.client_id,
        has_client_id(clients, a.client_id),
        has_client_id(clients, b.client_id),
        forall|i: int|
            0 <= i < projects.len() ==> projects[i].client_id != a.client_id
                && projects[i].client_id != b.client_id,
        top_project_id(projects) matches Some(m) ==> m < i64::MAX - 1,
        project_add_step(projects, clients, a, stamp_a, ra, after_a),
        project_add_step(after_a, clients, b, stamp_b, rb, after_b),
    ensures
        ra.is_ok() && ra.unwrap().number == 1,
        rb.is_ok() && rb.unwrap().number == 1,
{
    lemma_top_number_none(projects, a.client_id);
    lemma_top_number_none(projects, b.client_id);
    assert(ra.is_ok());
    assert(after_a.drop_last() =~= projects);
    assert(top_project_id(after_a) == Some(one_past(top_project_id(projects)) as i64));
    assert forall|i: int| 0 <= i < after_a.len() implies after_a[i].client_id != b.client_id by {
        if i < projects.len() {
            assert(after_a[i] == projects[i]);
        }
    }
    lemma_top_number_none(after_a, b.client_id);
}

/// The display numbers present among the records.
pub open spec fn client_numbers(clients: Seq<Client>) -> Set<int> {
    Set::new(|x: int| exists|i: int| 0 <= i < clients.len() && clients[i].number == x)
}

/// Client numbers are never reused: from an empty registry and a counter at
/// 0, adding three clients, deleting the second and adding a fourth leaves
/// exactly the numbers 1, 3 and 4.
pub proof fn lemma_numbers_not_reused(
    counters0: Counters,
    news: Seq<NewClient>,
    stamps: Seq<String>,
    projects: Seq<Project>,
    s1: Seq<Client>,
    s2: Seq<Client>,
    s3: Seq<Client>,
    s4: Seq<Client>,
    s5: Seq<Client>,
    k1: Counters,
    k2: Counters,
    k3: Counters,
    k5: Counters,
    r1: Result<Client, StoreError>,
    r2: Result<Client, StoreError>,
    r3: Result<Client, StoreError>,
    rd: Result<(), StoreError>,
    r5: Result<Client, StoreError>,
)
    requires
        counters0.client == 0,
        news.len() == 4,
        stamps.len() == 4,
        client_add_step(Seq::empty(), counters0, news[0], stamps[0], r1, s1, k1),
        client_add_step(s1, k1, news[1], stamps[1], r2, s2, k2),
        client_add_step(s2, k2, news[2], stamps[2], r3, s3, k3),
        r2.is_ok() ==> client_delete_step(s3, projects, r2.unwrap().id, rd, s4),
        client_add_step(s4, k3, news[3], stamps[3], r5, s5, k5),
        r1.is_ok(),
        r2.is_ok(),
        r3.is_ok(),
        rd.is_ok(),
        r5.is_ok(),
    ensures
        s5.len() == 3,
        client_numbers(s5) == set![1int, 3int, 4int],
{
    let e: Seq<Client> = Seq::empty();
    assert(top_client_id(e).is_none());
    assert(s1.drop_last() =~= e);
    assert(top_client_id(s1) == Some(1i64));
    assert(s2.drop_last() =~= s1);
    assert(top_client_id(s2) == Some(2i64));
    assert(s3.drop_last() =~= s2);
    assert(s3[0].id == 1 && s3[1].id == 2 && s3[2].id == 3);
    assert(s3[0].number == 1 && s3[1].number == 2 && s3[2].number == 3);
    let i = choose|i: int| 0 <= i < s3.len() && s3[i].id == 2 && s4 == s3.remove(i);
    assert(i == 1);
    assert(s4[0].number == 1 && s4[1].number == 3);
    assert(s5[0].number == 1 && s5[1].number == 3 && s5[2].number == 4);
    assert forall|x: int| #[trigger] client_numbers(s5).contains(x) implies (x == 1 || x == 3 || x
        == 4) by {}
    assert forall|x: int| (x == 1 || x == 3 || x == 4) implies #[trigger] client_numbers(
        s5,
    ).contains(x) by {
        if x == 1 {
            assert(s5[0].number == x);
        } else if x == 3 {
            assert(s5[1].number == x);
        } else {
            assert(s5[2].number == x);
        }
    }
    assert(client_numbers(s5) =~= set![1int, 3int, 4int]);
}

/// The integrity guard: deleting an existing client fails with
/// `HasDependentProjects` and changes nothing while some project references
/// it, and succeeds once none does.
pub proof fn lemma_integrity_guard(
    clients: Seq<Client>,
    projects: Seq<Project>,
    id: i64,
    r: Result<(), StoreError>,
    after: Seq<Client>,
)
    requires
        has_client_id(clients, id),
        client_delete_step(clients, projects, id, r, after),
    ensures
        (exists|i: int| 0 <= i < projects.len() && projects[i].client_id == id) ==> (r matches Err(
            StoreError::HasDependentProjects(n),
        ) && after == clients),
        (forall|i: int| 0 <= i < projects.len() ==> projects[i].client_id != id) ==> (r.is_ok()
            && after.len() == clients.len() - 1),
{
    lemma_owned_by_empty(projects, id);
}

/// The client code round trip: a client numbered 7 is shown as `K-007`, and
/// both `K-007` and `k-007` resolve to its id when display numbers are
/// unique.
pub proof fn lemma_client_code_round_trip(clients: Seq<Client>, k: int)
    requires
        0 <= k < clients.len(),
        clients[k].number == 7,
        client_numbers_distinct(clients),
    ensures
        client_code(7) == "K-007"@,
        client_ref_target(clients, "K-007"@, clients[k].id),
        client_ref_target(clients, "k-007"@, clients[k].id),
{
    reveal_strlit("K-007");
    reveal_strlit("k-007");
    assert(client_code(7) =~= "K-007"@);
    let digits = seq!['0', '0', '7'];
    assert(sign_len(digits) == 0);
    assert(digits.subrange(0, 3) =~= digits);
    assert(all_digits(digits));
    assert(digits.drop_last() =~= seq!['0', '0']);
    assert(seq!['0', '0'].drop_last() =~= seq!['0']);
    assert(seq!['0'].drop_last() =~= Seq::<char>::empty());
    assert(digits_value(Seq::<char>::empty()) == 0);
    assert(digits_value(seq!['0']) == 0);
    assert(digits_value(seq!['0', '0']) == 0);
    assert(digits_value(digits) == 7);
    assert(parse_int(digits) == Some(7int));
    assert("K-007"@.subrange(2, 5) =~= digits);
    assert("k-007"@.subrange(2, 5) =~= digits);
    assert(!all_digits("K-007"@.subrange(0, 5))) by {
        assert("K-007"@.subrange(0, 5)[0] == 'K');
    }
    assert("K-007"@.subrange(0, 5) =~= "K-007"@);
    assert(parse_int("K-007"@).is_none());
    assert("k-007"@.subrange(0, 5) =~= "k-007"@);
    assert(!all_digits("k-007"@.subrange(0, 5))) by {
        assert("k-007"@.subrange(0, 5)[0] == 'k');
    }
    assert(parse_int("k-007"@).is_none());
    assert(first_with_number(clients, 7, k));
    let m = parse_int("K-007"@.subrange(2, "K-007"@.len() as int));
    assert(m.unwrap() == 7);
    assert(first_with_number(clients, m.unwrap(), k));
    let m2 = parse_int("k-007"@.subrange(2, "k-007"@.len() as int));
    assert(m2.unwrap() == 7);
    assert(first_with_number(clients, m2.unwrap(), k));
}

/// Display numbers stay unique and within the counter: the counter is not
/// negative, every number lies in 1 ..= the client counter and no two
/// records share one.
pub open spec fn numbering_in_sync(clients: Seq<Client>, counters: Counters) -> bool {
    &&& counters.client >= 0
    &&& client_numbers_distinct(clients)
    &&& forall|i: int| 0 <= i < clients.len() ==> 1 <= #[trigger] clients[i].number <= counters.client
}

/// Adding a client keeps the numbering in sync with the counter, whatever
/// the outcome.
pub proof fn lemma_add_keeps_numbering(
    before: Seq<Client>,
    counters: Counters,
    nc: NewClient,
    created_at: String,
    r: Result<Client, StoreError>,
    after: Seq<Client>,
    counters_after: Counters,
)
    requires
        numbering_in_sync(before, counters),
        client_add_step(before, counters, nc, created_at, r, after, counters_after),
    ensures
        numbering_in_sync(after, counters_after),
{
    if r.is_ok() {
        assert forall|i: int, j: int| 0 <= i < j < after.len() implies after[i].number
            != after[j].number by {
            if j == before.len() {
                assert(after[i] == before[i]);
            } else {
                assert(after[i] == before[i] && after[j] == before[j]);
            }
        }
        assert forall|i: int| 0 <= i < after.len() implies 1 <= #[trigger] after[i].number
            <= counters_after.client by {
            if i < before.len() {
                assert(after[i] == before[i]);
            }
        }
    }
}

/// Deleting a client keeps the numbering in sync with the counter.
pub proof fn lemma_delete_keeps_numbering(
    before: Seq<Client>,
    projects: Seq<Project>,
    counters: Counters,
    id: i64,
    r: Result<(), StoreError>,
    after: Seq<Client>,
)
    requires
        numbering_in_sync(before, counters),
        client_delete_step(before, projects, id, r, after),
    ensures
        numbering_in_sync(after, counters),
{
    if r.is_ok() {
        let k = choose|k: int| 0 <= k < before.len() && before[k].id == id && after == before.remove(k);
        assert forall|i: int, j: int| 0 <= i < j < after.len() implies after[i].number
            != after[j].number by {
            let bi = if i < k { i } else { i + 1 };
            let bj = if j < k { j } else { j + 1 };
            assert(after[i] == before[bi] && after[j] == before[bj]);
        }
        assert forall|i: int| 0 <= i < after.len() implies 1 <= #[trigger] after[i].number
            <= counters.client by {
            let bi = if i < k { i } else { i + 1 };
            assert(after[i] == before[bi]);
        }
    }
}

/// Adding a project keeps project numbers unique within each client.
pub proof fn lemma_add_keeps_project_numbers(
    before: Seq<Project>,
    clients: Seq<Client>,
    np: NewProject,
    created_at: String,
    r: Result<Project, StoreError>,
    after: Seq<Project>,
)
    requires
        project_numbers_distinct_per_client(before),
        project_add_step(before, clients, np, created_at, r, after),
    ensures
        project_numbers_distinct_per_client(after),
{
    if r.is_ok() {
        lemma_top_number_bounds(before, np.client_id);
        assert forall|i: int, j: int|
            0 <= i < j < after.len() && after[i].client_id == after[j].client_id implies after[i].number
            != after[j].number by {
            assert(after[i] == before[i]);
            if j < before.len() {
                assert(after[j] == before[j]);
            }
        }
    }
}

/// Referential integrity: every project's owner is a client on record.
pub open spec fn owners_exist(clients: Seq<Client>, projects: Seq<Project>) -> bool {
    forall|j: int| 0 <= j < projects.len() ==> has_client_id(clients, #[trigger] projects[j].client_id)
}

/// Adding a project keeps every owner on record.
pub proof fn lemma_project_add_keeps_owners(
    clients: Seq<Client>,
    before: Seq<Project>,
    np: NewProject,
    created_at: String,
    r: Result<Project, StoreError>,
    after: Seq<Project>,
)
    requires
        owners_exist(clients, before),
        project_add_step(before, clients, np, created_at, r, after),
    ensures
        owners_exist(clients, after),
{
    if r.is_ok() {
        assert forall|j: int| 0 <= j < after.len() implies has_client_id(
            clients,
            #[trigger] after[j].client_id,
        ) by {
            if j < before.len() {
                assert(after[j] == before[j]);
            }
        }
    }
}

/// Deleting a project keeps every owner on record.
pub proof fn lemma_project_delete_keeps_owners(
    clients: Seq<Client>,
    before: Seq<Project>,
    id: i64,
    r: Result<(), StoreError>,
    after: Seq<Project>,
)
    requires
        owners_exist(clients, before),
        project_delete_step(before, id, r, after),
    ensures
        owners_exist(clients, after),
{
    if r.is_ok() {
        let k = choose|k: int| 0 <= k < before.len() && before[k].id == id && after == before.remove(k);
        assert forall|j: int| 0 <= j < after.len() implies has_client_id(
            clients,
            #[trigger] after[j].client_id,
        ) by {
            let b = if j < k { j } else { j + 1 };
            assert(after[j] == before[b]);
        }
    }
}

/// Adding a client keeps every owner on record.
pub proof fn lemma_client_add_keeps_owners(
    before: Seq<Client>,
    projects: Seq<Project>,
    counters: Counters,
    nc: NewClient,
    created_at: String,
    r: Result<Client, StoreError>,
    after: Seq<Client>,
    counters_after: Counters,
)
    requires
        owners_exist(before, projects),
        client_add_step(before, counters, nc, created_at, r, after, counters_after),
    ensures
        owners_exist(after, projects),
{
    if r.is_ok() {
        assert forall|j: int| 0 <= j < projects.len() implies has_client_id(
            after,
            #[trigger] projects[j].client_id,
        ) by {
            let i = choose|i: int| 0 <= i < before.len() && before[i].id == projects[j].client_id;
            assert(after[i] == before[i]);
        }
    }
}

/// Deleting a client, which the integrity guard allows only when no project
/// references it, keeps every owner on record.
pub proof fn lemma_client_delete_keeps_owners(
    before: Seq<Client>,
    projects: Seq<Project>,
    id: i64,
    r: Result<(), StoreError>,
    after: Seq<Client>,
)
    requires
        owners_exist(before, projects),
        client_ids_distinct(before),
        client_delete_step(before, projects, id, r, after),
    ensures
        owners_exist(after, projects),
{
    if r.is_ok() {
        lemma_owned_by_empty(projects, id);
        let k = choose|k: int| 0 <= k < before.len() && before[k].id == id && after == before.remove(k);
        assert forall|j: int| 0 <= j < projects.len() implies has_client_id(
            after,
            #[trigger] projects[j].client_id,
        ) by {
            let i = choose|i: int| 0 <= i < before.len() && before[i].id == projects[j].client_id;
            assert(i != k);
            let a = if i < k { i } else { i - 1 };
            assert(after[a] == before[i]);
        }
    }
}

} // verus!
