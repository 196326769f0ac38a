//! The client registry: client records, their ids and their display numbers.

use vstd::prelude::*;
use crate::clock::now_rfc3339;
use crate::counters::{CounterStore, Counters};
use crate::error::StoreError;
use crate::ident::{int_text, padded_number};
use crate::models::{Client, NewClient};
use crate::projects::{ProjectStore, owned_by};

verus! {

/// No two records share an id.
pub open spec fn client_ids_distinct(cs: Seq<Client>) -> bool {
    forall|i: int, j: int| 0 <= i < j < cs.len() ==> cs[i].id != cs[j].id
}

/// No two records share a display number.
pub open spec fn client_numbers_distinct(cs: Seq<Client>) -> bool {
    forall|i: int, j: int| 0 <= i < j < cs.len() ==> cs[i].number != cs[j].number
}

pub open spec fn has_client_id(cs: Seq<Client>, id: i64) -> bool {
    exists|i: int| 0 <= i < cs.len() && cs[i].id == id
}

pub open spec fn has_client_number(cs: Seq<Client>, n: int) -> bool {
    exists|i: int| 0 <= i < cs.len() && cs[i].number == n
}

/// `i` is the first position holding id `id`.
pub open spec fn first_with_id(cs: Seq<Client>, id: i64, i: int) -> bool {
    0 <= i < cs.len() && cs[i].id == id && forall|j: int| 0 <= j < i ==> cs[j].id != id
}

/// `i` is the first position holding display number `n`.
pub open spec fn first_with_number(cs: Seq<Client>, n: int, i: int) -> bool {
    0 <= i < cs.len() && cs[i].number == n && forall|j: int| 0 <= j < i ==> cs[j].number != n
}

/// The largest id among the records, `None` when there are none.
pub open spec fn top_client_id(cs: Seq<Client>) -> Option<i64>
    decreases cs.len(),
{
    if cs.len() == 0 {
        None
    } else {
        match top_client_id(cs.drop_last()) {
            None => Some(cs.last().id),
            Some(m) => Some(if cs.last().id > m { cs.last().id } else { m }),
        }
    }
}

/// The id a new record receives: one past the largest, or 1 when empty.
pub open spec fn next_client_id(cs: Seq<Client>) -> int {
    match top_client_id(cs) {
        None => 1,
        Some(m) => m + 1,
    }
}

/// The record built from the caller's fields and the assigned values.
pub open spec fn client_from(nc: NewClient, id: i64, number: i64, created_at: String) -> Client {
    Client {
        id,
        number,
        name: nc.name,
        company: nc.company,
        street: nc.street,
        house_number: nc.house_number,
        postal_code: nc.postal_code,
        city: nc.city,
        country: nc.country,
        email: nc.email,
        phone: nc.phone,
        notes: nc.notes,
        created_at,
    }
}

/// One `add` of the registry, from its inputs to its result and the two
/// stores after it. On success the record gets the next id and the client
/// counter's next value, and is appended; on failure nothing changes.
pub open spec fn client_add_step(
    before: Seq<Client>,
    counters: Counters,
    nc: NewClient,
    created_at: String,
    r: Result<Client, StoreError>,
    after: Seq<Client>,
    counters_after: Counters,
) -> bool {
    if next_client_id(before) > i64::MAX {
        r matches Err(StoreError::Exhausted(_)) && after == before && counters_after == counters
    } else if counters.client == i64::MAX {
        r matches Err(StoreError::Exhausted(_)) && after == before && counters_after == counters
    } else {
        let c = client_from(
            nc,
            next_client_id(before) as i64,
            (counters.client + 1) as i64,
            created_at,
        );
        &&& r == Ok::<Client, StoreError>(c)
        &&& after == before.push(c)
        &&& counters_after == Counters { client: c.number, ..counters }
    }
}

/// One `delete` of the registry. A missing id, or a client that still owns
/// projects, is an error that changes nothing; otherwise the record goes.
pub open spec fn client_delete_step(
    before: Seq<Client>,
    projects: Seq<crate::models::Project>,
    id: i64,
    r: Result<(), StoreError>,
    after: Seq<Client>,
) -> bool {
    if !has_client_id(before, id) {
        r matches Err(StoreError::ClientNotFound(t)) && t@ == int_text(id as int) && after == before
    } else if owned_by(projects, id).len() > 0 {
        r == Err::<(), StoreError>(StoreError::HasDependentProjects(owned_by(projects, id).len() as usize))
            && after == before
    } else {
        r == Ok::<(), StoreError>(()) && exists|i: int|
            0 <= i < before.len() && before[i].id == id && after == before.remove(i)
    }
}

/// The clients of one data directory, with the path they are kept at.
pub struct ClientStore {
    path: String,
    clients: Vec<Client>,
}

impl View for ClientStore {
    type V = Seq<Client>;

    closed spec fn view(&self) -> Seq<Client> {
        self.clients@
    }
}

impl ClientStore {
    pub closed spec fn location(&self) -> Seq<char> {
        self.path@
    }

    /// The store's invariant: ids are pairwise distinct.
    pub open spec fn wf(&self) -> bool {
        client_ids_distinct(self@)
    }

    /// An empty registry kept at `path`.
    pub fn new(path: &str) -> (r: ClientStore)
        ensures
            r@ == Seq::<Client>::empty(),
            r.location() == path@,
            r.wf(),
    {
        ClientStore { path: path.to_owned(), clients: Vec::new() }
    }

    /// An empty registry at the conventional location `data/clients.json`.
    pub fn default() -> (r: ClientStore)
        ensures
            r@ == Seq::<Client>::empty(),
            r.location() == "data/clients.json"@,
            r.wf(),
    {
        Self::new("data/clients.json")
    }

    /// The registry kept at `path` holding the records read from there, in
    /// their stored order; two records with one id are refused.
    pub fn from_records(path: &str, records: Vec<Client>) -> (r: Result<ClientStore, StoreError>)
        ensures
            match r {
                Ok(s) => s@ == records@ && s.location() == path@ && s.wf(),
                Err(e) => !client_ids_distinct(records@) && exists|i: int, j: int|
                    0 <= i < j < records@.len() && records@[i].id == records@[j].id
                        && e == StoreError::DuplicateId(records@[i].id),
            },
    {
        let n = records.len();
        let mut i: usize = 0;
        while i < n
            invariant
                n == records@.len(),
                i <= n,
                forall|a: int, b: int| 0 <= a < b < n && a < i ==> records@[a].id != records@[b].id,
            decreases n - i,
        {
            let mut j: usize = i + 1;
            while j < n
                invariant
                    n == records@.len(),
                    i < n,
                    i < j <= n,
                    forall|a: int, b: int|
                        0 <= a < b < n && a < i ==> records@[a].id != records@[b].id,
                    forall|b: int| i < b < j ==> records@[i as int].id != records@[b].id,
                decreases n - j,
            {
                if records[i].id == records[j].id {
                    return Err(StoreError::DuplicateId(records[i].id));
                }
                j = j + 1;
            }
            i = i + 1;
        }
        Ok(ClientStore { path: path.to_owned(), clients: records })
    }

    pub fn path(&self) -> (r: &str)
        ensures
            r@ == self.location(),
    {
        self.path.as_str()
    }

    /// All records, in stored order.
    pub fn list(&self) -> (r: Vec<Client>)
        ensures
            r@ == self@,
    {
        let mut out: Vec<Client> = Vec::new();
        let mut i: usize = 0;
        while i < self.clients.len()
            invariant
                i <= self@.len(),
                out@ == self@.subrange(0, i as int),
            decreases self@.len() - i,
        {
            out.push(self.clients[i].duplicate());
            i = i + 1;
            assert(out@ =~= self@.subrange(0, i as int));
        }
        assert(out@ =~= self@);
        out
    }

    /// The first record with this id, if any.
    pub fn get(&self, id: i64) -> (r: Option<Client>)
        ensures
            match r {
                Some(c) => exists|i: int| first_with_id(self@, id, i) && self@[i] == c,
                None => !has_client_id(self@, id),
            },
    {
        match self.index_of_id(id) {
            Some(i) => Some(self.clients[i].duplicate()),
            None => None,
        }
    }

    fn index_of_id(&self, id: i64) -> (r: Option<usize>)
        ensures
            match r {
                Some(i) => first_with_id(self@, id, i as int),
                None => !has_client_id(self@, id),
            },
    {
        let mut i: usize = 0;
        while i < self.clients.len()
            invariant
                i <= self@.len(),
                forall|j: int| 0 <= j < i ==> self@[j].id != id,
            decreases self@.len() - i,
        {
            if self.clients[i].id == id {
                return Some(i);
            }
            i = i + 1;
        }
        None
    }

    /// The first record with this display number, if any.
    pub fn get_by_number(&self, number: i64) -> (r: Option<Client>)
        ensures
            match r {
                Some(c) => exists|i: int| first_with_number(self@, number as int, i) && self@[i] == c,
                None => !has_client_number(self@, number as int),
            },
    {
        let mut i: usize = 0;
        while i < self.clients.len()
            invariant
                i <= self@.len(),
                forall|j: int| 0 <= j < i ==> self@[j].number != number,
            decreases self@.len() - i,
        {
            if self.clients[i].number == number {
                return Some(self.clients[i].duplicate());
            }
            i = i + 1;
        }
        None
    }

    fn top_id(&self) -> (r: Option<i64>)
        ensures
            r == top_client_id(self@),
    {
        let mut top: Option<i64> = None;
        let mut i: usize = 0;
        while i < self.clients.len()
            invariant
                i <= self@.len(),
                top == top_client_id(self@.subrange(0, i as int)),
            decreases self@.len() - i,
        {
            let id = self.clients[i].id;
            proof {
                assert(self@.subrange(0, i + 1).drop_last() =~= self@.subrange(0, i as int));
            }
            top = match top {
                None => Some(id),
                Some(m) => Some(if id > m { id } else { m }),
            };
            i = i + 1;
        }
        assert(self@.subrange(0, i as int) =~= self@);
        top
    }

    /// Adds a client stamped with the current time: the record gets the next
    /// id and the next value of the `client` counter. When the clock cannot
    /// be read the result is `ClockUnavailable` and nothing changes.
    pub fn add(&mut self, new_client: NewClient, counter: &mut CounterStore) -> (r: Result<
        Client,
        StoreError,
    >)
        requires
            old(self).wf(),
        ensures
            final(self).wf(),
            final(self).location() == old(self).location(),
            final(counter).location() == old(counter).location(),
            r == Err::<Client, StoreError>(StoreError::ClockUnavailable) ==> final(self)@ == old(
                self,
            )@ && final(counter)@ == old(counter)@,
            r != Err::<Client, StoreError>(StoreError::ClockUnavailable) ==> exists|
                created_at: String,
            | created_at@.len() > 0 && client_add_step(
                    old(self)@,
                    old(counter)@,
                    new_client,
                    created_at,
                    r,
                    final(self)@,
                    final(counter)@,
                ),
    {
        let created_at = match now_rfc3339() {
            Some(t) => t,
            None => {
                return Err(StoreError::ClockUnavailable);
            },
        };
        self.add_created_at(new_client, counter, created_at)
    }

    /// Adds a client with the given creation time: the record gets the next
    /// id (one past the largest, or 1) and the next value of the `client`
    /// counter, and is appended.
    pub fn add_created_at(
        &mut self,
        new_client: NewClient,
        counter: &mut CounterStore,
        created_at: String,
    ) -> (r: Result<Client, StoreError>)
        requires
            old(self).wf(),
        ensures
            final(self).wf(),
            final(self).location() == old(self).location(),
            final(counter).location() == old(counter).location(),
            client_add_step(
                old(self)@,
                old(counter)@,
                new_client,
                created_at,
                r,
                final(self)@,
                final(counter)@,
            ),
    {
        let top = self.top_id();
        let id: i64 = match top {
            None => 1,
            Some(m) => {
                if m == i64::MAX {
                    return Err(StoreError::Exhausted(String::from_str("client id")));
                }
                m + 1
            },
        };
        proof {
            reveal_strlit("client");
        }
        let number = match counter.next("client") {
            Ok(v) => v,
            Err(e) => {
                return Err(e);
            },
        };
        let client = Client {
            id,
            number,
            name: new_client.name,
            company: new_client.company,
            street: new_client.street,
            house_number: new_client.house_number,
            postal_code: new_client.postal_code,
            city: new_client.city,
            country: new_client.country,
            email: new_client.email,
            phone: new_client.phone,
            notes: new_client.notes,
            created_at,
        };
        proof {
            lemma_top_client_id_bounds(self@);
        }
        let out = client.duplicate();
        self.clients.push(client);
        Ok(out)
    }

    /// Deletes the client with this id, unless projects in `projects` still
    /// reference it.
    pub fn delete(&mut self, id: i64, projects: &ProjectStore) -> (r: Result<(), StoreError>)
        requires
            old(self).wf(),
        ensures
            final(self).wf(),
            final(self).location() == old(self).location(),
            client_delete_step(old(self)@, projects@, id, r, final(self)@),
    {
        match self.index_of_id(id) {
            None => Err(StoreError::ClientNotFound(padded_number(id, 0))),
            Some(i) => {
                let owned = projects.count_by_client(id);
                if owned > 0 {
                    Err(StoreError::HasDependentProjects(owned))
                } else {
                    self.clients.remove(i);
                    Ok(())
                }
            },
        }
    }
}

/// Every id is at most the largest one, and the largest is some record's.
pub proof fn lemma_top_client_id_bounds(cs: Seq<Client>)
    ensures
        match top_client_id(cs) {
            None => cs.len() == 0,
            Some(m) => (forall|i: int| 0 <= i < cs.len() ==> cs[i].id <= m) && exists|i: int|
                0 <= i < cs.len() && cs[i].id == m,
        },
    decreases cs.len(),
{
    if cs.len() > 0 {
        lemma_top_client_id_bounds(cs.drop_last());
        let m = top_client_id(cs.drop_last());
        assert forall|i: int| 0 <= i < cs.len() - 1 implies cs[i] == cs.drop_last()[i] by {}
        if m.is_none() {
            assert(cs.len() - 1 == 0);
        } else {
            let w = choose|i: int| 0 <= i < cs.drop_last().len() && cs.drop_last()[i].id == m.unwrap();
            assert(cs[w] == cs.drop_last()[w]);
        }
    }
}

} // verus!
