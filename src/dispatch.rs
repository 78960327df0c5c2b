//! The decisions of a snapshot request that may come from any thread.
//!
//! The scene graph may only be read on the thread that owns it. A request
//! made there builds the snapshot at once; one made elsewhere posts the work
//! to the owning thread and waits for the result. The caller performs each
//! action and reports what came of it as the next event; the decisions stand
//! here.
use vstd::prelude::*;
use crate::scene::SceneGraph;
use crate::tree::{AccessKitAdapter, TreeUpdate, focus_id, full_update_nodes, models};

verus! {

/// A window as the owning thread sees it: its builder and its scene graph.
pub struct AccessibleWindow {
    pub adapter: AccessKitAdapter,
    pub scene: SceneGraph,
}

/// Builds the snapshot on the owning thread: a full update of the window
/// while it exists, else the empty update.
pub fn global_build_tree_update(window: &mut Option<AccessibleWindow>) -> (r: TreeUpdate)
    requires
        *old(window) matches Some(w) ==> w.scene.wf(),
    ensures
        *old(window) is None ==> *final(window) is None && r.is_empty(),
        *old(window) matches Some(w0) ==> *final(window) matches Some(w1) && w1.scene == w0.scene
            && w1.adapter.generation() as int == (w0.adapter.generation() as int + 1) % 0x10000
            && models(r.nodes@) == full_update_nodes(w0.scene, w1.adapter.generation())
            && r.root == Some(w0.scene.node_id_spec(0, w1.adapter.generation())) && r.focus
            == focus_id(w0.scene, w0.scene.focus, w1.adapter.generation()),
{
    match window {
        Some(w) => w.adapter.build_tree_update(&w.scene),
        None => TreeUpdate::default(),
    }
}

/// Where a snapshot request stands.
#[derive(PartialEq, Eq, Structural, Clone, Copy, Debug)]
pub enum RequestState {
    /// Not started.
    Fresh,
    /// The work is being posted to the owning thread.
    Posting,
    /// The work was posted; the requester waits for its result.
    Waiting,
    /// The request has its answer.
    Finished,
}

/// What the caller reports back.
#[derive(PartialEq, Eq, Clone, Debug)]
pub enum RequestEvent {
    /// The request begins, on the owning thread or elsewhere; `window_alive`
    /// says whether the window still exists.
    Started { on_owner_thread: bool, window_alive: bool },
    /// The owning thread's event loop took the posted work.
    PostSucceeded,
    /// The event loop could not take it (it is gone or shutting down).
    PostFailed,
    /// The waiting requester woke; `result` is what it found in the shared
    /// slot.
    Woken { result: Option<TreeUpdate> },
}

/// What the caller does next.
#[derive(PartialEq, Eq, Clone, Debug)]
pub enum RequestAction {
    /// Build the snapshot here, with `global_build_tree_update`, and return it.
    BuildOnThisThread,
    /// Post the request to the owning thread's event loop.
    PostToOwnerThread,
    /// Wait for the condition to be signalled (or, for an event that does
    /// not belong to the state, nothing).
    Wait,
    /// Hand the empty update to the requester.
    ReturnEmpty,
    /// Hand this update to the requester.
    Return(TreeUpdate),
}

/// The transition for `event` in `state`. An event that does not belong to
/// the state changes nothing.
pub open spec fn transition(state: RequestState, event: RequestEvent) -> (RequestState, RequestAction) {
    match (state, event) {
        (RequestState::Fresh, RequestEvent::Started { on_owner_thread, window_alive }) => {
            if !on_owner_thread {
                (RequestState::Posting, RequestAction::PostToOwnerThread)
            } else if window_alive {
                (RequestState::Finished, RequestAction::BuildOnThisThread)
            } else {
                (RequestState::Finished, RequestAction::ReturnEmpty)
            }
        },
        (RequestState::Posting, RequestEvent::PostSucceeded) => (
            RequestState::Waiting,
            RequestAction::Wait,
        ),
        (RequestState::Posting, RequestEvent::PostFailed) => (
            RequestState::Finished,
            RequestAction::ReturnEmpty,
        ),
        (RequestState::Waiting, RequestEvent::Woken { result }) => match result {
            Some(u) => (RequestState::Finished, RequestAction::Return(u)),
            None => (RequestState::Waiting, RequestAction::Wait),
        },
        (s, _) => (s, RequestAction::Wait),
    }
}

/// Decides the next state and action of a snapshot request.
pub fn next_step(state: RequestState, event: RequestEvent) -> (r: (RequestState, RequestAction))
    ensures
        r == transition(state, event),
{
    match (state, event) {
        (RequestState::Fresh, RequestEvent::Started { on_owner_thread, window_alive }) => {
            if !on_owner_thread {
                (RequestState::Posting, RequestAction::PostToOwnerThread)
            } else if window_alive {
                (RequestState::Finished, RequestAction::BuildOnThisThread)
            } else {
                (RequestState::Finished, RequestAction::ReturnEmpty)
            }
        },
        (RequestState::Posting, RequestEvent::PostSucceeded) => (
            RequestState::Waiting,
            RequestAction::Wait,
        ),
        (RequestState::Posting, RequestEvent::PostFailed) => (
            RequestState::Finished,
            RequestAction::ReturnEmpty,
        ),
        (RequestState::Waiting, RequestEvent::Woken { result }) => match result {
            Some(u) => (RequestState::Finished, RequestAction::Return(u)),
            None => (RequestState::Waiting, RequestAction::Wait),
        },
        (s, _) => (s, RequestAction::Wait),
    }
}

/// A request made on another thread posts its work, waits, and returns
/// exactly the update that the owning thread built for it; a request made on
/// the owning thread builds that update itself. Where the window is gone the
/// owning thread returns the empty update, and that is what reaches the
/// requester.
pub proof fn lemma_cross_thread_equivalence(window_alive: bool, built: TreeUpdate)
    ensures
        transition(
            RequestState::Fresh,
            RequestEvent::Started { on_owner_thread: true, window_alive },
        ) == (RequestState::Finished, if window_alive {
            RequestAction::BuildOnThisThread
        } else {
            RequestAction::ReturnEmpty
        }),
        transition(
            RequestState::Fresh,
            RequestEvent::Started { on_owner_thread: false, window_alive },
        ) == (RequestState::Posting, RequestAction::PostToOwnerThread),
        transition(RequestState::Posting, RequestEvent::PostSucceeded) == (
            RequestState::Waiting,
            RequestAction::Wait,
        ),
        transition(RequestState::Waiting, RequestEvent::Woken { result: None }) == (
            RequestState::Waiting,
            RequestAction::Wait,
        ),
        transition(RequestState::Waiting, RequestEvent::Woken { result: Some(built) }) == (
            RequestState::Finished,
            RequestAction::Return(built),
        ),
{
}

/// A request whose posting fails ends at once with the empty update,
/// without waiting.
pub proof fn lemma_post_failure_does_not_block()
    ensures
        transition(RequestState::Posting, RequestEvent::PostFailed) == (
            RequestState::Finished,
            RequestAction::ReturnEmpty,
        ),
{
}

} // verus!
