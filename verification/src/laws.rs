//! The laws of the store, proved over the models its operations are
//! specified against.

use vstd::prelude::*;

use crate::app_controller::ControllerModel;
use crate::app_controller::MAX_GENERATED_ID;
use crate::app_controller::model_wf;
use crate::app_controller::spec_create;
use crate::app_controller::spec_delete;
use crate::app_controller::spec_read;
use crate::app_controller::spec_update;
use crate::app_table::app_of_record;
use crate::app_table::apply_changeset;
use crate::app_table::changeset_of;
use crate::app_table::has_id;
use crate::app_table::index_of_id;
use crate::app_table::lemma_index_of_id;
use crate::app_table::lemma_index_of_id_unique;
use crate::app_table::new_record;
use crate::app_table::record_of;
use crate::app_table::table_wf;
use crate::decimal::dec_seq;
use crate::decimal::dec_val;
use crate::decimal::lemma_dec_seq_len;
use crate::decimal::lemma_dec_seq_val;
use crate::decimal::lemma_pow10_19;
use crate::entities::CreateAppParamsView;
use crate::entities::UpdateAppParamsView;
use crate::entities::valid_create_params;
use crate::errors::WorkspaceError;

verus! {

/// After the record with the given id is removed, no record has that id.
proof fn lemma_remove_only_match(s: Seq<crate::app_table::AppTableView>, id: Seq<char>)
    requires
        table_wf(s),
        has_id(s, id),
    ensures
        !has_id(s.remove(index_of_id(s, id)), id),
{
    let i = index_of_id(s, id);
    lemma_index_of_id(s, id);
    let t = s.remove(i);
    assert forall|j: int| 0 <= j < t.len() implies (#[trigger] t[j]).id != id by {
        if j < i {
            assert(t[j] == s[j]);
        } else {
            assert(t[j] == s[j + 1]);
        }
    }
    lemma_index_of_id(t, id);
    if has_id(t, id) {
        assert(t[index_of_id(t, id)].id == id);
    }
}

/// Creating a valid app in a well-formed store whose identifier counter is
/// not exhausted succeeds, and reading the returned app's id back returns
/// an app equal to the returned one.
pub proof fn lemma_create_then_read(m: ControllerModel, p: CreateAppParamsView)
    requires
        model_wf(m),
        valid_create_params(p),
        m.next_id < MAX_GENERATED_ID,
    ensures
        ({
            let (m2, r) = spec_create(m, p);
            &&& r is Ok
            &&& spec_read(m2, r->Ok_0.id, false) == Ok::<_, WorkspaceError>(r->Ok_0)
        }),
{
    let id = dec_seq(m.next_id as nat);
    let rec = new_record(id, p);
    lemma_dec_seq_val(m.next_id as nat);
    lemma_pow10_19();
    lemma_dec_seq_len(m.next_id as nat, 19);
    lemma_index_of_id(m.records, id);
    if has_id(m.records, id) {
        let i = index_of_id(m.records, id);
        assert(m.records[i].id == id);
        assert(dec_val(m.records[i].id) < m.next_id);
    }
    let s2 = m.records.push(rec);
    assert forall|j: int| 0 <= j < s2.len() - 1 implies (#[trigger] s2[j]).id != id by {
        assert(s2[j] == m.records[j]);
    }
    lemma_index_of_id_unique(s2, id, s2.len() - 1);
}

/// Deleting an id and then reading it fails with `NotFound`, whether or not
/// the delete found a record.
pub proof fn lemma_delete_then_read(m: ControllerModel, id: Seq<char>)
    requires
        model_wf(m),
    ensures
        ({
            let (m2, r) = spec_delete(m, id);
            spec_read(m2, id, false) == Err::<crate::entities::AppView, _>(
                WorkspaceError::NotFound,
            )
        }),
{
    if has_id(m.records, id) {
        lemma_remove_only_match(m.records, id);
    }
}

/// Updating an app that a normal read returns and then reading it again
/// reflects exactly the fields present in the update parameters; the id,
/// the workspace and every absent field are unchanged, and the version has
/// advanced.
pub proof fn lemma_update_then_read(m: ControllerModel, p: UpdateAppParamsView)
    requires
        model_wf(m),
        spec_read(m, p.id, false) is Ok,
    ensures
        ({
            let before = spec_read(m, p.id, false)->Ok_0;
            let (m2, r) = spec_update(m, p);
            let after_read = spec_read(m2, p.id, false);
            &&& r == Ok::<(), WorkspaceError>(())
            &&& after_read is Ok
            &&& after_read->Ok_0.id == before.id
            &&& after_read->Ok_0.workspace_id == before.workspace_id
            &&& after_read->Ok_0.name == (match p.name {
                Some(n) => n,
                None => before.name,
            })
            &&& after_read->Ok_0.desc == (match p.desc {
                Some(d) => d,
                None => before.desc,
            })
            &&& after_read->Ok_0.belongings == before.belongings
            &&& after_read->Ok_0.version == (if before.version == u64::MAX {
                u64::MAX
            } else {
                (before.version + 1) as u64
            })
        }),
{
    let cs = changeset_of(p);
    let i = index_of_id(m.records, p.id);
    lemma_index_of_id(m.records, p.id);
    let rec = record_of(m.records, p.id);
    let updated = apply_changeset(rec, cs);
    let s2 = m.records.update(i, updated);
    assert forall|j: int| 0 <= j < i implies (#[trigger] s2[j]).id != p.id by {
        assert(s2[j] == m.records[j]);
    }
    lemma_index_of_id_unique(s2, p.id, i);
}

/// A trashed record is invisible to a normal read but returned, as an app,
/// by a read that asks for trashed records.
pub proof fn lemma_read_trashed(m: ControllerModel, id: Seq<char>)
    requires
        has_id(m.records, id),
        record_of(m.records, id).is_trash,
    ensures
        spec_read(m, id, false) == Err::<crate::entities::AppView, _>(WorkspaceError::NotFound),
        spec_read(m, id, true) == Ok::<_, WorkspaceError>(
            app_of_record(record_of(m.records, id)),
        ),
{
}

/// Deleting an existing id succeeds once: the second of two deletes of the
/// same id fails with `NotFound`.
pub proof fn lemma_delete_twice(m: ControllerModel, id: Seq<char>)
    requires
        model_wf(m),
        has_id(m.records, id),
    ensures
        ({
            let (m2, r1) = spec_delete(m, id);
            &&& r1 == Ok::<(), WorkspaceError>(())
            &&& spec_delete(m2, id).1 == Err::<(), WorkspaceError>(WorkspaceError::NotFound)
        }),
{
    lemma_remove_only_match(m.records, id);
}

} // verus!
