//! The domain entity `App` and the parameter objects of the store
//! operations, together with their mathematical views.

use vstd::prelude::*;

verus! {

/// A named container entity belonging to a workspace, holding child view
/// references.
#[derive(Debug, PartialEq, Eq)]
pub struct App {
    /// Unique identifier, immutable after creation.
    pub id: String,
    /// The workspace owning this app.
    pub workspace_id: String,
    pub name: String,
    pub desc: String,
    /// Ordered list of child view identifiers.
    pub belongings: Vec<String>,
    /// Monotonic on update.
    pub version: u64,
}

/// The mathematical view of an [`App`].
#[verifier::ext_equal]
pub ghost struct AppView {
    pub id: Seq<char>,
    pub workspace_id: Seq<char>,
    pub name: Seq<char>,
    pub desc: Seq<char>,
    pub belongings: Seq<Seq<char>>,
    pub version: u64,
}

impl View for App {
    type V = AppView;

    open spec fn view(&self) -> AppView {
        AppView {
            id: self.id@,
            workspace_id: self.workspace_id@,
            name: self.name@,
            desc: self.desc@,
            belongings: self.belongings.deep_view(),
            version: self.version,
        }
    }
}

/// The input of `create_app`: the owning workspace and the initial fields.
#[derive(Debug, PartialEq, Eq)]
pub struct CreateAppParams {
    pub workspace_id: String,
    pub name: String,
    pub desc: String,
}

/// The mathematical view of [`CreateAppParams`].
#[verifier::ext_equal]
pub ghost struct CreateAppParamsView {
    pub workspace_id: Seq<char>,
    pub name: Seq<char>,
    pub desc: Seq<char>,
}

impl View for CreateAppParams {
    type V = CreateAppParamsView;

    open spec fn view(&self) -> CreateAppParamsView {
        CreateAppParamsView {
            workspace_id: self.workspace_id@,
            name: self.name@,
            desc: self.desc@,
        }
    }
}

/// Creation parameters are valid when the required fields are non-empty.
pub open spec fn valid_create_params(p: CreateAppParamsView) -> bool {
    &&& p.workspace_id.len() > 0
    &&& p.name.len() > 0
}

/// The input of `update_app`: the id of the record to change, and the new
/// value of each field that is present. Absent fields are left unchanged.
#[derive(Debug, PartialEq, Eq)]
pub struct UpdateAppParams {
    pub id: String,
    pub name: Option<String>,
    pub desc: Option<String>,
}

/// The mathematical view of [`UpdateAppParams`].
#[verifier::ext_equal]
pub ghost struct UpdateAppParamsView {
    pub id: Seq<char>,
    pub name: Option<Seq<char>>,
    pub desc: Option<Seq<char>>,
}

impl View for UpdateAppParams {
    type V = UpdateAppParamsView;

    open spec fn view(&self) -> UpdateAppParamsView {
        UpdateAppParamsView {
            id: self.id@,
            name: self.name.deep_view(),
            desc: self.desc.deep_view(),
        }
    }
}

} // verus!
