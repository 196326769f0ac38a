//! The project registry: project records, numbered per owning client.

use vstd::prelude::*;
use crate::clients::{ClientStore, has_client_id};
use crate::clock::now_rfc3339;
use crate::error::StoreError;
use crate::ident::{int_text, padded_number};
use crate::models::{NewProject, Project};

verus! {

/// No two records share an id.
pub open spec fn project_ids_distinct(ps: Seq<Project>) -> bool {
    forall|i: int, j: int| 0 <= i < j < ps.len() ==> ps[i].id != ps[j].id
}

/// Within each client, no two projects share a number.
pub open spec fn project_numbers_distinct_per_client(ps: Seq<Project>) -> bool {
    forall|i: int, j: int|
        0 <= i < j < ps.len() && ps[i].client_id == ps[j].client_id ==> ps[i].number
            != ps[j].number
}

pub open spec fn has_project_id(ps: Seq<Project>, id: i64) -> bool {
    exists|i: int| 0 <= i < ps.len() && ps[i].id == id
}

/// The projects of one client, in stored order.
pub open spec fn owned_by(ps: Seq<Project>, client_id: i64) -> Seq<Project>
    decreases ps.len(),
{
    if ps.len() == 0 {
        Seq::empty()
    } else if ps.last().client_id == client_id {
        owned_by(ps.drop_last(), client_id).push(ps.last())
    } else {
        owned_by(ps.drop_last(), client_id)
    }
}

/// The largest id among the records, `None` when there are none.
pub open spec fn top_project_id(ps: Seq<Project>) -> Option<i64>
    decreases ps.len(),
{
    if ps.len() == 0 {
        None
    } else {
        match top_project_id(ps.drop_last()) {
            None => Some(ps.last().id),
            Some(m) => Some(if ps.last().id > m { ps.last().id } else { m }),
        }
    }
}

/// The largest number among one client's projects, `None` when it has none.
pub open spec fn top_number_for(ps: Seq<Project>, client_id: i64) -> Option<i64>
    decreases ps.len(),
{
    if ps.len() == 0 {
        None
    } else {
        let m = top_number_for(ps.drop_last(), client_id);
        if ps.last().client_id != client_id {
            m
        } else {
            match m {
                None => Some(ps.last().number),
                Some(x) => Some(if ps.last().number > x { ps.last().number } else { x }),
            }
        }
    }
}

/// One past the largest, or 1.
pub open spec fn one_past(top: Option<i64>) -> int {
    match top {
        None => 1,
        Some(m) => m + 1,
    }
}

pub open spec fn project_from(np: NewProject, id: i64, number: i64, created_at: String) -> Project {
    Project {
        id,
        number,
        client_id: np.client_id,
        name: np.name,
        description: np.description,
        hourly_rate: np.hourly_rate,
        status: np.status,
        created_at,
    }
}

/// One `add` of the registry. The owning client must exist; the record gets
/// the next id and the next number among that client's projects, and is
/// appended. On failure nothing changes.
pub open spec fn project_add_step(
    before: Seq<Project>,
    clients: Seq<crate::models::Client>,
    np: NewProject,
    created_at: String,
    r: Result<Project, StoreError>,
    after: Seq<Project>,
) -> bool {
    if !has_client_id(clients, np.client_id) {
        r matches Err(StoreError::ClientNotFound(t)) && t@ == int_text(np.client_id as int)
            && after == before
    } else if one_past(top_project_id(before)) > i64::MAX || one_past(
        top_number_for(before, np.client_id),
    ) > i64::MAX {
        r matches Err(StoreError::Exhausted(_)) && after == before
    } else {
        let p = project_from(
            np,
            one_past(top_project_id(before)) as i64,
            one_past(top_number_for(before, np.client_id)) as i64,
            created_at,
        );
        r == Ok::<Project, StoreError>(p) && after == before.push(p)
    }
}

/// One `delete` of the registry: the project with this id goes; a missing
/// id is an error that changes nothing.
pub open spec fn project_delete_step(
    before: Seq<Project>,
    id: i64,
    r: Result<(), StoreError>,
    after: Seq<Project>,
) -> bool {
    if !has_project_id(before, id) {
        r matches Err(StoreError::ProjectNotFound(t)) && t@ == int_text(id as int) && after
            == before
    } else {
        r == Ok::<(), StoreError>(()) && exists|i: int|
            0 <= i < before.len() && before[i].id == id && after == before.remove(i)
    }
}

/// The projects of one data directory, with the path they are kept at.
pub struct ProjectStore {
    path: String,
    projects: Vec<Project>,
}

impl View for ProjectStore {
    type V = Seq<Project>;

    closed spec fn view(&self) -> Seq<Project> {
        self.projects@
    }
}

impl ProjectStore {
    pub closed spec fn location(&self) -> Seq<char> {
        self.path@
    }

    /// The store's invariant: ids are pairwise distinct.
    pub open spec fn wf(&self) -> bool {
        project_ids_distinct(self@)
    }

    /// An empty registry kept at `path`.
    pub fn new(path: &str) -> (r: ProjectStore)
        ensures
            r@ == Seq::<Project>::empty(),
            r.location() == path@,
            r.wf(),
    {
        ProjectStore { path: path.to_owned(), projects: Vec::new() }
    }

    /// An empty registry at the conventional location `data/projects.json`.
    pub fn default() -> (r: ProjectStore)
        ensures
            r@ == Seq::<Project>::empty(),
            r.location() == "data/projects.json"@,
            r.wf(),
    {
        Self::new("data/projects.json")
    }

    /// The registry kept at `path` holding the records read from there, in
    /// their stored order; two records with one id are refused.
    pub fn from_records(path: &str, records: Vec<Project>) -> (r: Result<ProjectStore, StoreError>)
        ensures
            match r {
                Ok(s) => s@ == records@ && s.location() == path@ && s.wf(),
                Err(e) => !project_ids_distinct(records@) && exists|i: int, j: int|
                    0 <= i < j < records@.len() && records@[i].id == records@[j].id
                        && e == StoreError::DuplicateId(records@[i].id),
            },
    {
        let n = records.len();
        let mut i: usize = 0;
        while i < n
            invariant
                n == records@.len(),
                i <= n,
                forall|a: int, b: int| 0 <= a < b < n && a < i ==> records@[a].id != records@[b].id,
            decreases n - i,
        {
            let mut j: usize = i + 1;
            while j < n
                invariant
                    n == records@.len(),
                    i < n,
                    i < j <= n,
                    forall|a: int, b: int|
                        0 <= a < b < n && a < i ==> records@[a].id != records@[b].id,
                    forall|b: int| i < b < j ==> records@[i as int].id != records@[b].id,
                decreases n - j,
            {
                if records[i].id == records[j].id {
                    return Err(StoreError::DuplicateId(records[i].id));
                }
                j = j + 1;
            }
            i = i + 1;
        }
        Ok(ProjectStore { path: path.to_owned(), projects: records })
    }

    pub fn path(&self) -> (r: &str)
        ensures
            r@ == self.location(),
    {
        self.path.as_str()
    }

    /// All records, in stored order.
    pub fn list(&self) -> (r: Vec<Project>)
        ensures
            r@ == self@,
    {
        let mut out: Vec<Project> = Vec::new();
        let mut i: usize = 0;
        while i < self.projects.len()
            invariant
                i <= self@.len(),
                out@ == self@.subrange(0, i as int),
            decreases self@.len() - i,
        {
            out.push(self.projects[i].duplicate());
            i = i + 1;
            assert(out@ =~= self@.subrange(0, i as int));
        }
        assert(out@ =~= self@);
        out
    }

    /// The projects of one client, in stored order.
    pub fn list_by_client(&self, client_id: i64) -> (r: Vec<Project>)
        ensures
            r@ == owned_by(self@, client_id),
    {
        let mut out: Vec<Project> = Vec::new();
        let mut i: usize = 0;
        while i < self.projects.len()
            invariant
                i <= self@.len(),
                out@ == owned_by(self@.subrange(0, i as int), client_id),
            decreases self@.len() - i,
        {
            proof {
                assert(self@.subrange(0, i + 1).drop_last() =~= self@.subrange(0, i as int));
            }
            if self.projects[i].client_id == client_id {
                out.push(self.projects[i].duplicate());
            }
            i = i + 1;
        }
        assert(self@.subrange(0, i as int) =~= self@);
        out
    }

    /// How many projects reference this client.
    pub fn count_by_client(&self, client_id: i64) -> (r: usize)
        ensures
            r == owned_by(self@, client_id).len(),
    {
        let mut count: usize = 0;
        let mut i: usize = 0;
        while i < self.projects.len()
            invariant
                i <= self@.len(),
                count == owned_by(self@.subrange(0, i as int), client_id).len(),
                count <= i,
            decreases self@.len() - i,
        {
            proof {
                assert(self@.subrange(0, i + 1).drop_last() =~= self@.subrange(0, i as int));
            }
            if self.projects[i].client_id == client_id {
                count = count + 1;
            }
            i = i + 1;
        }
        assert(self@.subrange(0, i as int) =~= self@);
        count
    }

    /// The first record with this id, if any.
    pub fn get(&self, id: i64) -> (r: Option<Project>)
        ensures
            match r {
                Some(p) => exists|i: int|
                    0 <= i < self@.len() && self@[i] == p && p.id == id && forall|j: int|
                        0 <= j < i ==> self@[j].id != id,
                None => !has_project_id(self@, id),
            },
    {
        match self.index_of_id(id) {
            Some(i) => Some(self.projects[i].duplicate()),
            None => None,
        }
    }

    fn index_of_id(&self, id: i64) -> (r: Option<usize>)
        ensures
            match r {
                Some(i) => i < self@.len() && self@[i as int].id == id && forall|j: int|
                    0 <= j < i ==> self@[j].id != id,
                None => !has_project_id(self@, id),
            },
    {
        let mut i: usize = 0;
        while i < self.projects.len()
            invariant
                i <= self@.len(),
                forall|j: int| 0 <= j < i ==> self@[j].id != id,
            decreases self@.len() - i,
        {
            if self.projects[i].id == id {
                return Some(i);
            }
            i = i + 1;
        }
        None
    }

    fn tops(&self, client_id: i64) -> (r: (Option<i64>, Option<i64>))
        ensures
            r.0 == top_project_id(self@),
            r.1 == top_number_for(self@, client_id),
    {
        let mut top_id: Option<i64> = None;
        let mut top_number: Option<i64> = None;
        let mut i: usize = 0;
        while i < self.projects.len()
            invariant
                i <= self@.len(),
                top_id == top_project_id(self@.subrange(0, i as int)),
                top_number == top_number_for(self@.subrange(0, i as int), client_id),
            decreases self@.len() - i,
        {
            let p = &self.projects[i];
            proof {
                assert(self@.subrange(0, i + 1).drop_last() =~= self@.subrange(0, i as int));
            }
            top_id = match top_id {
                None => Some(p.id),
                Some(m) => Some(if p.id > m { p.id } else { m }),
            };
            if p.client_id == client_id {
                top_number = match top_number {
                    None => Some(p.number),
                    Some(m) => Some(if p.number > m { p.number } else { m }),
                };
            }
            i = i + 1;
        }
        assert(self@.subrange(0, i as int) =~= self@);
        (top_id, top_number)
    }

    /// Adds a project stamped with the current time, for a client that
    /// exists in `clients`. When the clock cannot be read the result is
    /// `ClockUnavailable` and nothing changes.
    pub fn add(&mut self, new_project: NewProject, clients: &ClientStore) -> (r: Result<
        Project,
        StoreError,
    >)
        requires
            old(self).wf(),
        ensures
            final(self).wf(),
            final(self).location() == old(self).location(),
            r == Err::<Project, StoreError>(StoreError::ClockUnavailable) ==> final(self)@ == old(
                self,
            )@,
            r != Err::<Project, StoreError>(StoreError::ClockUnavailable) ==> exists|
                created_at: String,
            | created_at@.len() > 0 && project_add_step(
                    old(self)@,
                    clients@,
                    new_project,
                    created_at,
                    r,
                    final(self)@,
                ),
    {
        let created_at = match now_rfc3339() {
            Some(t) => t,
            None => {
                return Err(StoreError::ClockUnavailable);
            },
        };
        self.add_created_at(new_project, clients, created_at)
    }

    /// Adds a project with the given creation time. Its number is one past
    /// the largest among the same client's projects, or 1: numbering restarts
    /// for every client.
    pub fn add_created_at(
        &mut self,
        new_project: NewProject,
        clients: &ClientStore,
        created_at: String,
    ) -> (r: Result<Project, StoreError>)
        requires
            old(self).wf(),
        ensures
            final(self).wf(),
            final(self).location() == old(self).location(),
            project_add_step(old(self)@, clients@, new_project, created_at, r, final(self)@),
    {
        if clients.get(new_project.client_id).is_none() {
            return Err(StoreError::ClientNotFound(padded_number(new_project.client_id, 0)));
        }
        let (top_id, top_number) = self.tops(new_project.client_id);
        let id: i64 = match top_id {
            None => 1,
            Some(m) => {
                if m == i64::MAX {
                    return Err(StoreError::Exhausted(String::from_str("project id")));
                }
                m + 1
            },
        };
        let number: i64 = match top_number {
            None => 1,
            Some(m) => {
                if m == i64::MAX {
                    return Err(StoreError::Exhausted(String::from_str("project number")));
                }
                m + 1
            },
        };
        let project = Project {
            id,
            number,
            client_id: new_project.client_id,
            name: new_project.name,
            description: new_project.description,
            hourly_rate: new_project.hourly_rate,
            status: new_project.status,
            created_at,
        };
        proof {
            lemma_top_project_id_bounds(self@);
        }
        let out = project.duplicate();
        self.projects.push(project);
        Ok(out)
    }

    /// Deletes the project with this id; projects have no dependents.
    pub fn delete(&mut self, id: i64) -> (r: Result<(), StoreError>)
        requires
            old(self).wf(),
        ensures
            final(self).wf(),
            final(self).location() == old(self).location(),
            project_delete_step(old(self)@, id, r, final(self)@),
    {
        match self.index_of_id(id) {
            None => Err(StoreError::ProjectNotFound(padded_number(id, 0))),
            Some(i) => {
                self.projects.remove(i);
                Ok(())
            },
        }
    }
}

/// Every id is at most the largest one.
pub proof fn lemma_top_project_id_bounds(ps: Seq<Project>)
    ensures
        match top_project_id(ps) {
            None => ps.len() == 0,
            Some(m) => forall|i: int| 0 <= i < ps.len() ==> ps[i].id <= m,
        },
    decreases ps.len(),
{
    if ps.len() > 0 {
        lemma_top_project_id_bounds(ps.drop_last());
        assert forall|i: int| 0 <= i < ps.len() - 1 implies ps[i] == ps.drop_last()[i] by {}
    }
}

/// Every number among one client's projects is at most the largest one.
pub proof fn lemma_top_number_bounds(ps: Seq<Project>, client_id: i64)
    ensures
        match top_number_for(ps, client_id) {
            None => forall|i: int| 0 <= i < ps.len() ==> ps[i].client_id != client_id,
            Some(m) => forall|i: int|
                0 <= i < ps.len() && ps[i].client_id == client_id ==> ps[i].number <= m,
        },
    decreases ps.len(),
{
    if ps.len() > 0 {
        lemma_top_number_bounds(ps.drop_last(), client_id);
        assert forall|i: int| 0 <= i < ps.len() - 1 implies ps[i] == ps.drop_last()[i] by {}
    }
}

/// A client owns no project exactly when no record references it.
pub proof fn lemma_owned_by_empty(ps: Seq<Project>, client_id: i64)
    ensures
        owned_by(ps, client_id).len() == 0 <==> forall|i: int|
            0 <= i < ps.len() ==> ps[i].client_id != client_id,
    decreases ps.len(),
{
    if ps.len() > 0 {
        lemma_owned_by_empty(ps.drop_last(), client_id);
        assert forall|i: int| 0 <= i < ps.len() - 1 implies ps[i] == ps.drop_last()[i] by {}
    }
}

} // verus!
