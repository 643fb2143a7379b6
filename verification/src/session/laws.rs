//! What every backend report and every start request keeps true of the session.
use vstd::prelude::*;

use super::react::{auth_finished_ok, finished_ok, FinishedKind};
use super::start::{client_ready, monitor_refusal, one_time_sync_refusal, preview_refusal};
use super::{account_spec, with_status, Dialog, Reaction, SessionView};
use crate::event::OperationOutcome;
use crate::profile::store::{find_index, lemma_first_index, AccountStatusView, AccountView};

verus! {

/// A first profile with the id exists wherever some profile has it.
proof fn lemma_find_first(store: Seq<AccountView>, id: Seq<char>, k: int) -> (i: int)
    requires
        0 <= k <= store.len(),
        forall|j: int| 0 <= j < k ==> #[trigger] store[j].id != id,
        exists|x: int| k <= x < store.len() && #[trigger] store[x].id == id,
    ensures
        0 <= i < store.len(),
        store[i].id == id,
        forall|j: int| 0 <= j < i ==> #[trigger] store[j].id != id,
    decreases store.len() - k,
{
    if store[k].id == id {
        k
    } else {
        let x = choose|x: int| k <= x < store.len() && #[trigger] store[x].id == id;
        assert(x != k);
        lemma_find_first(store, id, k + 1)
    }
}

/// The first profile with an id keeps its place when its status changes.
proof fn lemma_with_status(store: Seq<AccountView>, id: Seq<char>, st: AccountStatusView)
    requires
        find_index(store, id) is Some,
    ensures
        account_spec(store, id) matches Some(a) && a.id == id,
        account_spec(with_status(store, id, st), id) == Some(
            AccountView { status: st, ..account_spec(store, id).unwrap() },
        ),
{
    assert(exists|x: int| 0 <= x < store.len() && #[trigger] store[x].id == id);
    let i = lemma_find_first(store, id, 0);
    lemma_first_index(store, id, i);
    let u = store.update(i, AccountView { status: st, ..store[i] });
    assert(with_status(store, id, st) == u);
    assert forall|j: int| 0 <= j < i implies #[trigger] u[j].id != id by {
        assert(u[j] == store[j]);
    }
    lemma_first_index(u, id, i);
}

/// Every run that ends, however it ends, leaves its profile free: its operation is
/// forgotten and its process handle released.
pub proof fn law_finished_run_frees_profile(
    kind: FinishedKind,
    s0: SessionView,
    s1: SessionView,
    id: Seq<char>,
    o: OperationOutcome,
    r: Reaction,
)
    requires
        finished_ok(kind, s0, s1, id, o, &r),
    ensures
        !s1.operations.contains_key(id),
        r.release_handle,
{
}

/// A sync, preview or monitor run that finds the sign-in expired marks the profile
/// as needing authentication and opens its sign-in dialog again.
pub proof fn law_expired_sign_in_asks_again(
    kind: FinishedKind,
    s0: SessionView,
    s1: SessionView,
    id: Seq<char>,
    o: OperationOutcome,
    r: Reaction,
)
    requires
        finished_ok(kind, s0, s1, id, o, &r),
        o.auth_required,
        find_index(s0.store, id) is Some,
    ensures
        account_spec(s1.store, id) matches Some(a) && a.status == AccountStatusView::NeedsAuth,
        r.dialog matches Some(Dialog::Auth(a)) && a@.id == id,
{
    lemma_with_status(s0.store, id, AccountStatusView::NeedsAuth);
}

/// A one-time or continuous sync that succeeded or was stopped by the user, and did
/// not find the sign-in expired, leaves the profile authenticated.
pub proof fn law_sync_success_or_stop_keeps_authenticated(
    kind: FinishedKind,
    s0: SessionView,
    s1: SessionView,
    id: Seq<char>,
    o: OperationOutcome,
    r: Reaction,
)
    requires
        finished_ok(kind, s0, s1, id, o, &r),
        kind != FinishedKind::Preview,
        !o.auth_required,
        o.success || o.requested_stop,
        find_index(s0.store, id) is Some,
    ensures
        account_spec(s1.store, id) matches Some(a) && a.status == AccountStatusView::Authenticated,
{
    lemma_with_status(s0.store, id, AccountStatusView::Authenticated);
}

/// A failed one-time or continuous sync records an error on the profile.
pub proof fn law_sync_failure_records_error(
    kind: FinishedKind,
    s0: SessionView,
    s1: SessionView,
    id: Seq<char>,
    o: OperationOutcome,
    r: Reaction,
)
    requires
        finished_ok(kind, s0, s1, id, o, &r),
        kind != FinishedKind::Preview,
        !o.auth_required,
        !o.success,
        !o.requested_stop,
        find_index(s0.store, id) is Some,
    ensures
        account_spec(s1.store, id) matches Some(a) && a.status is Error,
{
    lemma_with_status(s0.store, id, super::react::finished_status(kind, o));
}

/// A preview never changes the profile's status unless the sign-in expired.
pub proof fn law_preview_keeps_status(
    s0: SessionView,
    s1: SessionView,
    id: Seq<char>,
    o: OperationOutcome,
    r: Reaction,
)
    requires
        finished_ok(FinishedKind::Preview, s0, s1, id, o, &r),
        !o.auth_required,
    ensures
        s1.store == s0.store,
{
}

/// A state the CLI wants confirmed is put to the user in a dialog, never only as a
/// passing notice.
pub proof fn law_confirmation_opens_dialog(
    kind: FinishedKind,
    s0: SessionView,
    s1: SessionView,
    id: Seq<char>,
    o: OperationOutcome,
    r: Reaction,
)
    requires
        finished_ok(kind, s0, s1, id, o, &r),
        !o.auth_required,
        o.requires_confirmation is Some,
    ensures
        r.dialog is Some,
        r.toast is None,
{
}

/// A finished sign-in marks the profile authenticated and looks up its identity, or
/// records the error.
pub proof fn law_auth_finished_sets_status(
    s0: SessionView,
    s1: SessionView,
    id: Seq<char>,
    success: bool,
    error: Option<crate::event::BackendError>,
    r: Reaction,
)
    requires
        auth_finished_ok(s0, s1, id, success, error, &r),
        find_index(s0.store, id) is Some,
    ensures
        !s1.operations.contains_key(id),
        success ==> (account_spec(s1.store, id) matches Some(a) && a.status
            == AccountStatusView::Authenticated),
        success ==> (r.identity_lookup matches Some(a) && a@.id == id),
        !success ==> (account_spec(s1.store, id) matches Some(a) && a.status is Error),
        !success ==> r.identity_lookup is None,
{
    let st = if success {
        AccountStatusView::Authenticated
    } else {
        AccountStatusView::Error(super::message_or(error, "认证失败"@))
    };
    lemma_with_status(s0.store, id, st);
}

/// A one-time sync starts only for an authenticated profile, with a usable CLI, while
/// the profile runs nothing else (in particular no continuous sync).
pub proof fn law_one_time_sync_preconditions(s: SessionView, id: Seq<char>, authenticated: bool)
    requires
        one_time_sync_refusal(s, id, authenticated) is None,
    ensures
        authenticated,
        client_ready(s),
        !s.operations.contains_key(id),
{
}

/// A preview starts only for an authenticated profile, with a usable CLI, while the
/// profile runs nothing else.
pub proof fn law_preview_preconditions(s: SessionView, id: Seq<char>, authenticated: bool)
    requires
        preview_refusal(s, id, authenticated) is None,
    ensures
        authenticated,
        client_ready(s),
        !s.operations.contains_key(id),
{
}

/// Continuous sync starts only for an authenticated profile, with a usable CLI, while
/// no one-time sync runs for it.
pub proof fn law_monitor_preconditions(s: SessionView, id: Seq<char>, authenticated: bool)
    requires
        monitor_refusal(s, id, authenticated) is None,
    ensures
        authenticated,
        client_ready(s),
        !s.operations.contains_key(id),
{
}

} // verus!
