//! The persisted shape of an app, the partial-update changeset, and the
//! table that is the single source of truth for app records.

use vstd::prelude::*;

use crate::entities::App;
use crate::entities::CreateAppParams;
use crate::entities::UpdateAppParams;
use crate::errors::WorkspaceError;
use crate::text::str_eq;

verus! {

/// The storage projection of an [`App`]: the persisted fields plus the
/// soft-deletion marker `is_trash`.
#[derive(Debug, PartialEq, Eq)]
pub struct AppTable {
    pub id: String,
    pub workspace_id: String,
    pub name: String,
    pub desc: String,
    pub version: u64,
    pub is_trash: bool,
}

/// The mathematical view of an [`AppTable`] record.
#[verifier::ext_equal]
pub ghost struct AppTableView {
    pub id: Seq<char>,
    pub workspace_id: Seq<char>,
    pub name: Seq<char>,
    pub desc: Seq<char>,
    pub version: u64,
    pub is_trash: bool,
}

impl View for AppTable {
    type V = AppTableView;

    open spec fn view(&self) -> AppTableView {
        AppTableView {
            id: self.id@,
            workspace_id: self.workspace_id@,
            name: self.name@,
            desc: self.desc@,
            version: self.version,
            is_trash: self.is_trash,
        }
    }
}

impl DeepView for AppTable {
    type V = AppTableView;

    open spec fn deep_view(&self) -> AppTableView {
        self.view()
    }
}

/// The record a fresh creation with parameters `p` and identifier `id`
/// writes: version zero and not trashed.
pub open spec fn new_record(id: Seq<char>, p: crate::entities::CreateAppParamsView) -> AppTableView {
    AppTableView {
        id: id,
        workspace_id: p.workspace_id,
        name: p.name,
        desc: p.desc,
        version: 0,
        is_trash: false,
    }
}

/// The app a record maps to: the persisted fields, with no child views yet.
pub open spec fn app_of_record(r: AppTableView) -> crate::entities::AppView {
    crate::entities::AppView {
        id: r.id,
        workspace_id: r.workspace_id,
        name: r.name,
        desc: r.desc,
        belongings: Seq::empty(),
        version: r.version,
    }
}

impl Clone for AppTable {
    /// A field-for-field copy of the record.
    fn clone(&self) -> (r: Self)
        ensures
            r@ == self@,
    {
        AppTable {
            id: self.id.clone(),
            workspace_id: self.workspace_id.clone(),
            name: self.name.clone(),
            desc: self.desc.clone(),
            version: self.version,
            is_trash: self.is_trash,
        }
    }
}

impl AppTable {
    /// The record a creation writes: the fields of `params` under the given
    /// identifier, at version zero and not trashed.
    pub fn new(id: String, params: CreateAppParams) -> (r: AppTable)
        ensures
            r@ == new_record(id@, params@),
    {
        AppTable {
            id: id,
            workspace_id: params.workspace_id,
            name: params.name,
            desc: params.desc,
            version: 0,
            is_trash: false,
        }
    }

    /// Maps this record to the domain entity it stores.
    pub fn to_app(&self) -> (r: App)
        ensures
            r@ == app_of_record(self@),
    {
        let r = App {
            id: self.id.clone(),
            workspace_id: self.workspace_id.clone(),
            name: self.name.clone(),
            desc: self.desc.clone(),
            belongings: Vec::new(),
            version: self.version,
        };
        proof {
            assert(r.belongings.deep_view() =~= Seq::<Seq<char>>::empty());
        }
        r
    }
}

/// A partial update: the id of the record to change and the new value of
/// each field that is present.
#[derive(Debug, PartialEq, Eq)]
pub struct AppTableChangeset {
    pub id: String,
    pub name: Option<String>,
    pub desc: Option<String>,
}

/// The mathematical view of an [`AppTableChangeset`].
#[verifier::ext_equal]
pub ghost struct AppTableChangesetView {
    pub id: Seq<char>,
    pub name: Option<Seq<char>>,
    pub desc: Option<Seq<char>>,
}

impl View for AppTableChangeset {
    type V = AppTableChangesetView;

    open spec fn view(&self) -> AppTableChangesetView {
        AppTableChangesetView {
            id: self.id@,
            name: self.name.deep_view(),
            desc: self.desc.deep_view(),
        }
    }
}

/// The changeset the update parameters describe.
pub open spec fn changeset_of(p: crate::entities::UpdateAppParamsView) -> AppTableChangesetView {
    AppTableChangesetView { id: p.id, name: p.name, desc: p.desc }
}

impl AppTableChangeset {
    /// Builds the changeset of an update: only the fields present in
    /// `params` will be applied.
    pub fn new(params: UpdateAppParams) -> (r: AppTableChangeset)
        ensures
            r@ == changeset_of(params@),
    {
        AppTableChangeset { id: params.id, name: params.name, desc: params.desc }
    }
}

/// The record `r` after the changeset `cs` is applied: present fields are
/// replaced, absent fields are kept, and the version advances (saturating
/// at the largest representable value).
pub open spec fn apply_changeset(r: AppTableView, cs: AppTableChangesetView) -> AppTableView {
    AppTableView {
        id: r.id,
        workspace_id: r.workspace_id,
        name: match cs.name {
            Some(n) => n,
            None => r.name,
        },
        desc: match cs.desc {
            Some(d) => d,
            None => r.desc,
        },
        version: if r.version == u64::MAX {
            u64::MAX
        } else {
            (r.version + 1) as u64
        },
        is_trash: r.is_trash,
    }
}

/// The position of the first record with the given id, or `-1` if there is
/// none.
pub open spec fn index_of_id(s: Seq<AppTableView>, id: Seq<char>) -> int
    decreases s.len(),
{
    if s.len() == 0 {
        -1
    } else if s[0].id == id {
        0
    } else {
        let r = index_of_id(s.subrange(1, s.len() as int), id);
        if r == -1 {
            -1
        } else {
            r + 1
        }
    }
}

/// Whether some record in `s` has the given id.
pub open spec fn has_id(s: Seq<AppTableView>, id: Seq<char>) -> bool {
    index_of_id(s, id) >= 0
}

/// The record in `s` with the given id.
pub open spec fn record_of(s: Seq<AppTableView>, id: Seq<char>) -> AppTableView
    recommends
        has_id(s, id),
{
    s[index_of_id(s, id)]
}

/// `index_of_id` finds the first record with the given id, and `-1` exactly
/// when no record has it.
pub proof fn lemma_index_of_id(s: Seq<AppTableView>, id: Seq<char>)
    ensures
        -1 <= index_of_id(s, id) < s.len(),
        index_of_id(s, id) >= 0 ==> s[index_of_id(s, id)].id == id,
        forall|j: int|
            0 <= j < s.len() && (index_of_id(s, id) == -1 || j < index_of_id(s, id))
                ==> (#[trigger] s[j]).id != id,
    decreases s.len(),
{
    if s.len() > 0 && s[0].id != id {
        let t = s.subrange(1, s.len() as int);
        lemma_index_of_id(t, id);
        assert forall|j: int|
            0 <= j < s.len() && (index_of_id(s, id) == -1 || j < index_of_id(s, id)) implies (
        #[trigger] s[j]).id != id by {
            if j > 0 {
                assert(s[j] == t[j - 1]);
            }
        }
    }
}

/// A position whose record has the id, while every earlier record does
/// not, is the position `index_of_id` finds.
pub proof fn lemma_index_of_id_unique(s: Seq<AppTableView>, id: Seq<char>, i: int)
    requires
        0 <= i < s.len(),
        s[i].id == id,
        forall|j: int| 0 <= j < i ==> (#[trigger] s[j]).id != id,
    ensures
        index_of_id(s, id) == i,
    decreases s.len(),
{
    if i > 0 {
        let t = s.subrange(1, s.len() as int);
        assert(forall|j: int| 0 <= j < t.len() ==> t[j] == #[trigger] s[j + 1]);
        lemma_index_of_id_unique(t, id, i - 1);
    }
}

/// The table lookup: the record with the id, unless there is none, or it is
/// trashed and trashed records were not asked for.
pub open spec fn spec_read_table(
    s: Seq<AppTableView>,
    id: Seq<char>,
    include_trash: bool,
) -> Result<AppTableView, WorkspaceError> {
    if !has_id(s, id) {
        Err(WorkspaceError::NotFound)
    } else if !include_trash && record_of(s, id).is_trash {
        Err(WorkspaceError::NotFound)
    } else {
        Ok(record_of(s, id))
    }
}

/// The table insert: appends the record, unless its id is already taken.
pub open spec fn spec_insert_table(s: Seq<AppTableView>, r: AppTableView) -> Result<
    Seq<AppTableView>,
    WorkspaceError,
> {
    if has_id(s, r.id) {
        Err(WorkspaceError::PersistenceError)
    } else {
        Ok(s.push(r))
    }
}

/// The table delete: removes the record with the id, unless there is none.
pub open spec fn spec_delete_table(s: Seq<AppTableView>, id: Seq<char>) -> Result<
    Seq<AppTableView>,
    WorkspaceError,
> {
    if !has_id(s, id) {
        Err(WorkspaceError::NotFound)
    } else {
        Ok(s.remove(index_of_id(s, id)))
    }
}

/// The table update: applies the changeset to the record with its id,
/// unless there is none.
pub open spec fn spec_update_table(s: Seq<AppTableView>, cs: AppTableChangesetView) -> Result<
    Seq<AppTableView>,
    WorkspaceError,
> {
    if !has_id(s, cs.id) {
        Err(WorkspaceError::NotFound)
    } else {
        Ok(s.update(index_of_id(s, cs.id), apply_changeset(record_of(s, cs.id), cs)))
    }
}

/// The table of app records, keyed by id. The well-formed table has no two
/// records under the same id.
pub struct AppTableSql {
    pub apps: Vec<AppTable>,
}

impl View for AppTableSql {
    type V = Seq<AppTableView>;

    open spec fn view(&self) -> Seq<AppTableView> {
        self.apps.deep_view()
    }
}

impl AppTableSql {
    /// No two records share an id.
    pub open spec fn wf(&self) -> bool {
        table_wf(self@)
    }

    /// An empty table.
    pub fn new() -> (r: AppTableSql)
        ensures
            r@ == Seq::<AppTableView>::empty(),
            r.wf(),
    {
        let r = AppTableSql { apps: Vec::new() };
        proof {
            assert(r@ =~= Seq::<AppTableView>::empty());
        }
        r
    }

    /// The position of the first record with the given id, if any.
    fn find_index(&self, app_id: &str) -> (r: Option<usize>)
        ensures
            match r {
                Some(i) => i < self@.len() && index_of_id(self@, app_id@) == i,
                None => index_of_id(self@, app_id@) == -1,
            },
    {
        let n = self.apps.len();
        let mut i: usize = 0;
        while i < n
            invariant
                n == self@.len(),
                n == self.apps.len(),
                i <= n,
                forall|j: int| 0 <= j < i ==> (#[trigger] self@[j]).id != app_id@,
            decreases n - i,
        {
            if str_eq(self.apps[i].id.as_str(), app_id) {
                proof {
                    lemma_index_of_id_unique(self@, app_id@, i as int);
                }
                return Some(i);
            }
            i = i + 1;
        }
        proof {
            lemma_index_of_id(self@, app_id@);
        }
        None
    }

    /// Writes a fresh record. Fails with a persistence error when the id is
    /// already taken, and leaves the table unchanged then.
    pub fn create_app(&mut self, record: AppTable) -> (result: Result<(), WorkspaceError>)
        ensures
            match spec_insert_table(old(self)@, record@) {
                Ok(s2) => result == Ok::<(), WorkspaceError>(()) && final(self)@ == s2,
                Err(e) => result == Err::<(), WorkspaceError>(e) && final(self)@ == old(self)@,
            },
            old(self).wf() ==> final(self).wf(),
    {
        let ghost prior = self@;
        match self.find_index(record.id.as_str()) {
            Some(_) => Err(WorkspaceError::PersistenceError),
            None => {
                proof {
                    lemma_index_of_id(prior, record.id@);
                }
                self.apps.push(record);
                proof {
                    assert(self@ =~= prior.push(record@));
                    if table_wf(prior) {
                        lemma_table_wf_push(prior, record@);
                    }
                }
                Ok(())
            },
        }
    }

    /// Looks a record up by id. Fails with `NotFound` when there is none,
    /// or when it is trashed and `include_trash` is false.
    pub fn read_app(&self, app_id: &str, include_trash: bool) -> (result: Result<
        AppTable,
        WorkspaceError,
    >)
        ensures
            match spec_read_table(self@, app_id@, include_trash) {
                Ok(r) => result is Ok && result->Ok_0@ == r,
                Err(e) => result == Err::<AppTable, WorkspaceError>(e),
            },
    {
        match self.find_index(app_id) {
            None => Err(WorkspaceError::NotFound),
            Some(i) => {
                let record = &self.apps[i];
                if !include_trash && record.is_trash {
                    Err(WorkspaceError::NotFound)
                } else {
                    Ok(record.clone())
                }
            },
        }
    }

    /// Removes the record with the given id for good. Fails with `NotFound`
    /// when there is none, and leaves the table unchanged then.
    pub fn delete_app(&mut self, app_id: &str) -> (result: Result<(), WorkspaceError>)
        ensures
            match spec_delete_table(old(self)@, app_id@) {
                Ok(s2) => result == Ok::<(), WorkspaceError>(()) && final(self)@ == s2,
                Err(e) => result == Err::<(), WorkspaceError>(e) && final(self)@ == old(self)@,
            },
            old(self).wf() ==> final(self).wf(),
    {
        let ghost prior = self@;
        match self.find_index(app_id) {
            None => Err(WorkspaceError::NotFound),
            Some(i) => {
                let _ = self.apps.remove(i);
                proof {
                    assert(self@ =~= prior.remove(i as int));
                    if table_wf(prior) {
                        lemma_table_wf_remove(prior, i as int);
                    }
                }
                Ok(())
            },
        }
    }

    /// Applies a changeset to the record with its id. Fails with `NotFound`
    /// when there is none, and leaves the table unchanged then.
    pub fn update_app(&mut self, changeset: AppTableChangeset) -> (result: Result<
        (),
        WorkspaceError,
    >)
        ensures
            match spec_update_table(old(self)@, changeset@) {
                Ok(s2) => result == Ok::<(), WorkspaceError>(()) && final(self)@ == s2,
                Err(e) => result == Err::<(), WorkspaceError>(e) && final(self)@ == old(self)@,
            },
            old(self).wf() ==> final(self).wf(),
    {
        let ghost prior = self@;
        let ghost cs = changeset@;
        let AppTableChangeset { id, name, desc } = changeset;
        match self.find_index(id.as_str()) {
            None => Err(WorkspaceError::NotFound),
            Some(i) => {
                let old_record = self.apps.remove(i);
                let new_version = if old_record.version < u64::MAX {
                    old_record.version + 1
                } else {
                    u64::MAX
                };
                let updated = AppTable {
                    id: old_record.id,
                    workspace_id: old_record.workspace_id,
                    name: match name {
                        Some(n) => n,
                        None => old_record.name,
                    },
                    desc: match desc {
                        Some(d) => d,
                        None => old_record.desc,
                    },
                    version: new_version,
                    is_trash: old_record.is_trash,
                };
                self.apps.insert(i, updated);
                proof {
                    assert(updated@ == apply_changeset(prior[i as int], cs));
                    assert(self@ =~= prior.update(i as int, updated@));
                    if table_wf(prior) {
                        lemma_table_wf_update(prior, i as int, updated@);
                    }
                }
                Ok(())
            },
        }
    }
}

/// No two records of `s` share an id.
pub open spec fn table_wf(s: Seq<AppTableView>) -> bool {
    forall|i: int, j: int|
        0 <= i < s.len() && 0 <= j < s.len() && i != j ==> (#[trigger] s[i]).id != (
        #[trigger] s[j]).id
}

/// Appending a record under a fresh id keeps the ids unique.
pub proof fn lemma_table_wf_push(s: Seq<AppTableView>, r: AppTableView)
    requires
        table_wf(s),
        !has_id(s, r.id),
    ensures
        table_wf(s.push(r)),
{
    lemma_index_of_id(s, r.id);
}

/// Removing a record keeps the ids unique.
pub proof fn lemma_table_wf_remove(s: Seq<AppTableView>, i: int)
    requires
        table_wf(s),
        0 <= i < s.len(),
    ensures
        table_wf(s.remove(i)),
{
    let t = s.remove(i);
    assert forall|a: int, b: int|
        0 <= a < t.len() && 0 <= b < t.len() && a != b implies (#[trigger] t[a]).id != (
    #[trigger] t[b]).id by {
        let a0 = if a < i {
            a
        } else {
            a + 1
        };
        let b0 = if b < i {
            b
        } else {
            b + 1
        };
        assert(t[a] == s[a0]);
        assert(t[b] == s[b0]);
    }
}

/// Replacing a record by one with the same id keeps the ids unique.
pub proof fn lemma_table_wf_update(s: Seq<AppTableView>, i: int, r: AppTableView)
    requires
        table_wf(s),
        0 <= i < s.len(),
        r.id == s[i].id,
    ensures
        table_wf(s.update(i, r)),
{
}

} // verus!
