//! The store itself: it validates and transforms parameters, performs the
//! table call, and publishes a change event on every accepted mutation.

use vstd::prelude::*;

use crate::app_table::AppTable;
use crate::app_table::AppTableChangeset;
use crate::app_table::AppTableSql;
use crate::app_table::AppTableView;
use crate::app_table::app_of_record;
use crate::app_table::changeset_of;
use crate::app_table::has_id;
use crate::app_table::index_of_id;
use crate::app_table::lemma_index_of_id;
use crate::app_table::new_record;
use crate::app_table::spec_delete_table;
use crate::app_table::spec_insert_table;
use crate::app_table::spec_read_table;
use crate::app_table::spec_update_table;
use crate::app_table::table_wf;
use crate::decimal::dec_seq;
use crate::decimal::dec_val;
use crate::decimal::is_canonical_dec;
use crate::decimal::lemma_dec_seq_len;
use crate::decimal::lemma_dec_seq_val;
use crate::decimal::lemma_dec_val_upper;
use crate::decimal::lemma_pow10_19;
use crate::decimal::lemma_pow10_monotonic;
use crate::decimal::parse_dec;
use crate::decimal::u64_to_dec;
use crate::entities::App;
use crate::entities::AppView;
use crate::entities::CreateAppParams;
use crate::entities::CreateAppParamsView;
use crate::entities::UpdateAppParams;
use crate::entities::UpdateAppParamsView;
use crate::entities::valid_create_params;
use crate::errors::WorkspaceError;
use crate::observable::NotificationView;
use crate::observable::ObservableSender;
use crate::observable::WorkspaceObservable;

verus! {

/// The first counter value for which no identifier is generated any more:
/// every generated identifier has at most nineteen digits.
pub const MAX_GENERATED_ID: u64 = 10_000_000_000_000_000_000;

/// The acting user on whose behalf the store operates. Held for future
/// authorization checks; the operations do not consult it yet.
pub struct WorkspaceUser {
    pub user_id: String,
}

/// The mathematical state of a store: the table contents, the events
/// published so far, and the next identifier to generate.
#[verifier::ext_equal]
pub ghost struct ControllerModel {
    pub records: Seq<AppTableView>,
    pub notes: Seq<NotificationView>,
    pub next_id: u64,
}

/// A well-formed store: ids are unique in the table, and the counter is
/// ahead of every short canonical decimal id already present, so that the
/// next generated id is fresh.
pub open spec fn model_wf(m: ControllerModel) -> bool {
    &&& table_wf(m.records)
    &&& m.next_id <= MAX_GENERATED_ID
    &&& forall|i: int|
        0 <= i < m.records.len() ==> ((is_canonical_dec((#[trigger] m.records[i]).id)
            && m.records[i].id.len() <= 19) ==> dec_val(m.records[i].id) < m.next_id)
}

/// What `create_app` does: reject invalid parameters, reject an exhausted
/// identifier counter, and otherwise insert a fresh record and publish
/// `WorkspaceAddApp` keyed by the owning workspace.
pub open spec fn spec_create(m: ControllerModel, p: CreateAppParamsView) -> (
    ControllerModel,
    Result<AppView, WorkspaceError>,
) {
    if !valid_create_params(p) {
        (m, Err(WorkspaceError::ValidationError))
    } else if m.next_id >= MAX_GENERATED_ID {
        (m, Err(WorkspaceError::PersistenceError))
    } else {
        let rec = new_record(dec_seq(m.next_id as nat), p);
        match spec_insert_table(m.records, rec) {
            Ok(rs) => (
                ControllerModel {
                    records: rs,
                    notes: m.notes.push(
                        NotificationView {
                            subject_id: p.workspace_id,
                            kind: WorkspaceObservable::WorkspaceAddApp,
                        },
                    ),
                    next_id: (m.next_id + 1) as u64,
                },
                Ok(app_of_record(rec)),
            ),
            Err(e) => (m, Err(e)),
        }
    }
}

/// What `read_app` does: the app stored under the id, unless there is none,
/// or it is trashed and trashed records were not asked for.
pub open spec fn spec_read(m: ControllerModel, id: Seq<char>, include_trash: bool) -> Result<
    AppView,
    WorkspaceError,
> {
    match spec_read_table(m.records, id, include_trash) {
        Ok(r) => Ok(app_of_record(r)),
        Err(e) => Err(e),
    }
}

/// What `delete_app` does: remove the record for good; no event is
/// published.
pub open spec fn spec_delete(m: ControllerModel, id: Seq<char>) -> (
    ControllerModel,
    Result<(), WorkspaceError>,
) {
    match spec_delete_table(m.records, id) {
        Ok(rs) => (ControllerModel { records: rs, ..m }, Ok(())),
        Err(e) => (m, Err(e)),
    }
}

/// What `update_app` does: apply the changeset of the present fields and
/// publish `AppUpdateDesc` keyed by the app id.
pub open spec fn spec_update(m: ControllerModel, p: UpdateAppParamsView) -> (
    ControllerModel,
    Result<(), WorkspaceError>,
) {
    match spec_update_table(m.records, changeset_of(p)) {
        Ok(rs) => (
            ControllerModel {
                records: rs,
                notes: m.notes.push(
                    NotificationView {
                        subject_id: p.id,
                        kind: WorkspaceObservable::AppUpdateDesc,
                    },
                ),
                next_id: m.next_id,
            },
            Ok(()),
        ),
        Err(e) => (m, Err(e)),
    }
}

/// The counter a store built over `s` starts with: one past the value of
/// the largest canonical decimal id of at most nineteen digits in `s`, or
/// zero when there is none.
pub open spec fn next_counter(s: Seq<AppTableView>) -> u64
    decreases s.len(),
{
    if s.len() == 0 {
        0
    } else {
        let rest = next_counter(s.drop_last());
        let last = s.last();
        if is_canonical_dec(last.id) && last.id.len() <= 19 && dec_val(last.id) + 1 > rest {
            (dec_val(last.id) + 1) as u64
        } else {
            rest
        }
    }
}

/// The view of an app-or-error result.
pub open spec fn app_result_view(r: Result<App, WorkspaceError>) -> Result<
    AppView,
    WorkspaceError,
> {
    match r {
        Ok(a) => Ok(a@),
        Err(e) => Err(e),
    }
}

/// The store: translates domain operations into table calls and publishes
/// a change event on every mutation the table accepts.
pub struct AppController {
    pub user: WorkspaceUser,
    pub sql: AppTableSql,
    pub observable: ObservableSender,
    pub next_id: u64,
}

impl AppController {
    /// The mathematical state of this store.
    pub open spec fn model(&self) -> ControllerModel {
        ControllerModel { records: self.sql@, notes: self.observable@, next_id: self.next_id }
    }

    /// A well-formed store; see [`model_wf`].
    pub open spec fn wf(&self) -> bool {
        model_wf(self.model())
    }

    /// Builds a store over the given collaborators. The identifier counter
    /// starts past every canonical decimal id already in the table, so a
    /// well-formed table gives a well-formed store.
    pub fn new(user: WorkspaceUser, database: AppTableSql, observable: ObservableSender) -> (c:
        AppController)
        ensures
            c.model().records == database@,
            c.model().notes == observable@,
            c.model().next_id == next_counter(database@),
            c.user == user,
            database.wf() ==> c.wf(),
    {
        let n = database.apps.len();
        let mut next: u64 = 0;
        let mut i: usize = 0;
        proof {
            assert(database@.subrange(0, 0) =~= Seq::<AppTableView>::empty());
        }
        while i < n
            invariant
                n == database.apps.len(),
                n == database@.len(),
                i <= n,
                next <= MAX_GENERATED_ID,
                next == next_counter(database@.subrange(0, i as int)),
                forall|j: int|
                    0 <= j < i ==> ((is_canonical_dec((#[trigger] database@[j]).id)
                        && database@[j].id.len() <= 19) ==> dec_val(database@[j].id) < next),
            decreases n - i,
        {
            proof {
                assert(database@[i as int] == database.apps[i as int]@);
            }
            let ghost pre = database@.subrange(0, i as int);
            let ghost cur = database@.subrange(0, i + 1);
            proof {
                assert(cur.drop_last() =~= pre);
                assert(cur.last() == database@[i as int]);
            }
            match parse_dec(database.apps[i].id.as_str()) {
                Some(v) => {
                    proof {
                        lemma_dec_val_upper(database@[i as int].id);
                        lemma_pow10_monotonic(database@[i as int].id.len(), 19);
                        lemma_pow10_19();
                    }
                    if v >= next {
                        next = v + 1;
                    }
                },
                None => {},
            }
            i = i + 1;
        }
        proof {
            assert(database@.subrange(0, n as int) =~= database@);
        }
        AppController { user, sql: database, observable, next_id: next }
    }

    /// Creates an app from the given parameters under a fresh generated
    /// identifier, writes its record, and publishes `WorkspaceAddApp` keyed
    /// by the owning workspace. Returns the created app.
    pub fn create_app(&mut self, params: CreateAppParams) -> (result: Result<App, WorkspaceError>)
        ensures
            ({
                let (m2, r) = spec_create(old(self).model(), params@);
                final(self).model() == m2 && app_result_view(result) == r
            }),
            final(self).user == old(self).user,
            old(self).wf() ==> final(self).wf(),
    {
        if params.workspace_id.as_str().is_empty() || params.name.as_str().is_empty() {
            return Err(WorkspaceError::ValidationError);
        }
        if self.next_id >= MAX_GENERATED_ID {
            return Err(WorkspaceError::PersistenceError);
        }
        let ghost prior = self.model();
        let id = u64_to_dec(self.next_id);
        let workspace_id = params.workspace_id.clone();
        let record = AppTable::new(id, params);
        let ghost rec = record@;
        let app = record.to_app();
        match self.sql.create_app(record) {
            Ok(_) => {
                self.next_id = self.next_id + 1;
                self.observable.send_observable(
                    workspace_id,
                    WorkspaceObservable::WorkspaceAddApp,
                );
                proof {
                    if model_wf(prior) {
                        lemma_generated_id_fresh(prior);
                        lemma_dec_seq_val(prior.next_id as nat);
                        lemma_dec_seq_len_19(prior.next_id);
                        assert forall|i: int|
                            0 <= i < self.sql@.len() implies ((is_canonical_dec(
                            (#[trigger] self.sql@[i]).id) && self.sql@[i].id.len() <= 19)
                            ==> dec_val(self.sql@[i].id) < self.next_id) by {
                            if i < prior.records.len() {
                                assert(self.sql@[i] == prior.records[i]);
                            } else {
                                assert(self.sql@[i] == rec);
                            }
                        }
                    }
                }
                Ok(app)
            },
            Err(e) => Err(e),
        }
    }

    /// Reads the app stored under `app_id`. Fails with `NotFound` when
    /// there is no such record, or when the record is trashed and
    /// `include_trash` is false.
    pub fn read_app(&self, app_id: &str, include_trash: bool) -> (result: Result<
        App,
        WorkspaceError,
    >)
        ensures
            app_result_view(result) == spec_read(self.model(), app_id@, include_trash),
    {
        match self.sql.read_app(app_id, include_trash) {
            Ok(record) => Ok(record.to_app()),
            Err(e) => Err(e),
        }
    }

    /// Removes the record stored under `app_id` for good. Fails with
    /// `NotFound` when there is none. No event is published.
    pub fn delete_app(&mut self, app_id: &str) -> (result: Result<(), WorkspaceError>)
        ensures
            ({
                let (m2, r) = spec_delete(old(self).model(), app_id@);
                final(self).model() == m2 && result == r
            }),
            final(self).user == old(self).user,
            old(self).wf() ==> final(self).wf(),
    {
        let ghost prior = self.model();
        match self.sql.delete_app(app_id) {
            Ok(_) => {
                proof {
                    if model_wf(prior) {
                        let i = index_of_id(prior.records, app_id@);
                        lemma_index_of_id(prior.records, app_id@);
                        assert forall|j: int|
                            0 <= j < self.sql@.len() implies ((is_canonical_dec(
                            (#[trigger] self.sql@[j]).id) && self.sql@[j].id.len() <= 19)
                            ==> dec_val(self.sql@[j].id) < self.next_id) by {
                            if j < i {
                                assert(self.sql@[j] == prior.records[j]);
                            } else {
                                assert(self.sql@[j] == prior.records[j + 1]);
                            }
                        }
                    }
                }
                Ok(())
            },
            Err(e) => Err(e),
        }
    }

    /// Applies the fields present in `params` to the record under
    /// `params.id` and publishes `AppUpdateDesc` keyed by that id. Fails
    /// with `NotFound` when there is no such record. Callers re-read to
    /// observe the new state.
    pub fn update_app(&mut self, params: UpdateAppParams) -> (result: Result<(), WorkspaceError>)
        ensures
            ({
                let (m2, r) = spec_update(old(self).model(), params@);
                final(self).model() == m2 && result == r
            }),
            final(self).user == old(self).user,
            old(self).wf() ==> final(self).wf(),
    {
        let ghost prior = self.model();
        let changeset = AppTableChangeset::new(params);
        let app_id = changeset.id.clone();
        match self.sql.update_app(changeset) {
            Ok(_) => {
                proof {
                    if model_wf(prior) {
                        let cs = changeset_of(params@);
                        let i = index_of_id(prior.records, cs.id);
                        lemma_index_of_id(prior.records, cs.id);
                        assert forall|j: int|
                            0 <= j < self.sql@.len() implies ((is_canonical_dec(
                            (#[trigger] self.sql@[j]).id) && self.sql@[j].id.len() <= 19)
                            ==> dec_val(self.sql@[j].id) < self.next_id) by {
                            if j != i {
                                assert(self.sql@[j] == prior.records[j]);
                            } else {
                                assert(self.sql@[j].id == prior.records[j].id);
                            }
                        }
                    }
                }
                self.observable.send_observable(app_id, WorkspaceObservable::AppUpdateDesc);
                Ok(())
            },
            Err(e) => Err(e),
        }
    }
}

/// A generated identifier has at most nineteen digits.
proof fn lemma_dec_seq_len_19(n: u64)
    requires
        n < MAX_GENERATED_ID,
    ensures
        dec_seq(n as nat).len() <= 19,
{
    lemma_pow10_19();
    lemma_dec_seq_len(n as nat, 19);
}

/// In a well-formed store whose counter is not exhausted, the next
/// generated identifier is not in the table.
proof fn lemma_generated_id_fresh(m: ControllerModel)
    requires
        model_wf(m),
        m.next_id < MAX_GENERATED_ID,
    ensures
        !has_id(m.records, dec_seq(m.next_id as nat)),
{
    let id = dec_seq(m.next_id as nat);
    lemma_dec_seq_val(m.next_id as nat);
    lemma_dec_seq_len_19(m.next_id);
    lemma_index_of_id(m.records, id);
    if has_id(m.records, id) {
        let i = index_of_id(m.records, id);
        assert(m.records[i].id == id);
        assert(dec_val(m.records[i].id) < m.next_id);
    }
}

} // verus!
