//! Change notifications: the event kinds the store publishes and an
//! explicit, injected sink that records every event it is handed.

use vstd::prelude::*;

verus! {

/// The kind of a change event published by the store.
#[derive(Clone, Copy, Debug, PartialEq, Eq, Structural)]
pub enum WorkspaceObservable {
    /// An app was added to a workspace; the subject is the workspace id.
    WorkspaceAddApp,
    /// An app was updated; the subject is the app id.
    AppUpdateDesc,
}

/// One published change event: the id it is keyed by and its kind.
#[derive(Debug, PartialEq, Eq)]
pub struct Notification {
    pub subject_id: String,
    pub kind: WorkspaceObservable,
}

/// The mathematical view of a [`Notification`].
#[verifier::ext_equal]
pub ghost struct NotificationView {
    pub subject_id: Seq<char>,
    pub kind: WorkspaceObservable,
}

impl View for Notification {
    type V = NotificationView;

    open spec fn view(&self) -> NotificationView {
        NotificationView { subject_id: self.subject_id@, kind: self.kind }
    }
}

impl DeepView for Notification {
    type V = NotificationView;

    open spec fn deep_view(&self) -> NotificationView {
        self.view()
    }
}

/// A fire-and-forget notification sink that keeps, in order, every event
/// sent through it. Injected into the store in place of process-wide
/// subscriber state.
pub struct ObservableSender {
    pub log: Vec<Notification>,
}

impl View for ObservableSender {
    type V = Seq<NotificationView>;

    open spec fn view(&self) -> Seq<NotificationView> {
        self.log.deep_view()
    }
}

impl ObservableSender {
    /// A sink that has seen no events yet.
    pub fn new() -> (r: ObservableSender)
        ensures
            r@ == Seq::<NotificationView>::empty(),
    {
        let r = ObservableSender { log: Vec::new() };
        proof {
            assert(r@ =~= Seq::<NotificationView>::empty());
        }
        r
    }

    /// Publish one event: it is appended to the log, after everything sent
    /// before it.
    pub fn send_observable(&mut self, subject_id: String, kind: WorkspaceObservable)
        ensures
            final(self)@ == old(self)@.push(
                NotificationView { subject_id: subject_id@, kind: kind },
            ),
    {
        let ghost prior = self@;
        let ghost subject_view = subject_id@;
        self.log.push(Notification { subject_id, kind });
        proof {
            assert(self@ =~= prior.push(
                NotificationView { subject_id: subject_view, kind: kind },
            ));
        }
    }
}

} // verus!
