//! Laws of a session: which events trigger a save, which windows are
//! saved, how a process's command line is restored, and which window a
//! restored window is placed through.
use vstd::prelude::*;
use crate::config::{class_is_ignored, Config};
use crate::session::{
    cleaned_pid_command, first_plain_word, is_kept, kept_positions, main_executable,
    newest_of_class, plans_window, target_window, triggers_save, WindowPlan,
};
use crate::text::{contains, signed_decimal, views, words};
use crate::types::{HyprlandClient, HyprlandEvent, UwsmAppState};

verus! {

/// Opening, closing or moving a window, and creating or destroying a
/// workspace, are the events that trigger a save; no other event does.
pub proof fn lemma_save_events(e: HyprlandEvent)
    ensures
        triggers_save(e) <==> (e is WindowOpen || e is WindowClose || e is WindowMove
            || e is WorkspaceCreate || e is WorkspaceDestroy),
        e is WindowMove ==> triggers_save(e),
{
}

/// The saved windows are exactly those whose class is not ignored and whose
/// workspace is not an ignored one: every kept position is a window on a
/// workspace outside `ignore_workspaces` with a class that no ignored class
/// matches, and every such window is kept, in order.
pub proof fn lemma_kept_windows_respect_filters(config: Config, clients: Seq<HyprlandClient>)
    ensures
        forall|k: int|
            0 <= k < kept_positions(config, clients).len() ==> {
                let i = #[trigger] kept_positions(config, clients)[k];
                &&& 0 <= i < clients.len()
                &&& !config.filters.ignore_workspaces@.contains(clients[i].workspace.id)
                &&& !class_is_ignored(views(config.filters.ignore_classes@), clients[i].class@)
            },
        forall|i: int|
            0 <= i < clients.len() && !config.filters.ignore_workspaces@.contains(
                #[trigger] clients[i].workspace.id,
            ) && !class_is_ignored(views(config.filters.ignore_classes@), clients[i].class@)
                ==> kept_positions(config, clients).contains(i),
        forall|a: int, b: int|
            0 <= a < b < kept_positions(config, clients).len() ==> kept_positions(config, clients)[a]
                < kept_positions(config, clients)[b],
    decreases clients.len(),
{
    if clients.len() > 0 {
        let init = clients.drop_last();
        lemma_kept_windows_respect_filters(config, init);
        let ki = kept_positions(config, init);
        let n = clients.len() - 1;
        assert forall|k: int| 0 <= k < ki.len() implies ki[k] < n && clients[ki[k]] == init[ki[k]] by {
            assert(0 <= #[trigger] ki[k] < init.len());
        }
        if is_kept(config, clients.last()) {
            assert(kept_positions(config, clients) == ki.push(n));
            assert(ki.push(n)[ki.len() as int] == n);
        }
        assert forall|i: int|
            0 <= i < clients.len() && !config.filters.ignore_workspaces@.contains(
                #[trigger] clients[i].workspace.id,
            ) && !class_is_ignored(views(config.filters.ignore_classes@), clients[i].class@)
            implies kept_positions(config, clients).contains(i) by {
            if i < n {
                assert(init[i] == clients[i]);
                assert(ki.contains(i));
                let k = choose|k: int| 0 <= k < ki.len() && ki[k] == i;
                if is_kept(config, clients.last()) {
                    assert(ki.push(n)[k] == i);
                }
            } else {
                assert(clients[i] == clients.last());
                assert(ki.push(n)[ki.len() as int] == n);
            }
        }
    }
}

/// A command line read from a process that pipes, or mentions `sudo` or
/// `tee`, is restored as its program alone: after a leading `env`, the first
/// word without `=`; else the first word. Any other command line is restored
/// word for word.
pub proof fn lemma_pid_command_reduced(cmd: Seq<char>)
    ensures
        !(contains(cmd, "|"@) || contains(cmd, "sudo"@) || contains(cmd, "tee"@))
            ==> cleaned_pid_command(cmd) == words(cmd),
        (contains(cmd, "|"@) || contains(cmd, "sudo"@) || contains(cmd, "tee"@)) && words(cmd).len()
            > 0 ==> {
            let w = words(cmd);
            &&& cleaned_pid_command(cmd).len() == 1
            &&& w[0] != "env"@ ==> cleaned_pid_command(cmd)[0] == w[0]
            &&& w[0] == "env"@ && (forall|j: int| 1 <= j < w.len() ==> contains(#[trigger] w[j], "="@))
                ==> cleaned_pid_command(cmd)[0] == w[0]
            &&& forall|k: int|
                w[0] == "env"@ && 1 <= k < w.len() && !contains(#[trigger] w[k], "="@) && (forall|j: int|
                    1 <= j < k ==> contains(#[trigger] w[j], "="@)) ==> cleaned_pid_command(cmd)[0]
                    == w[k]
        },
{
    let w = words(cmd);
    if w.len() > 0 && (contains(cmd, "|"@) || contains(cmd, "sudo"@) || contains(cmd, "tee"@)) {
        assert(cleaned_pid_command(cmd) == seq![main_executable(w)]);
        assert forall|k: int|
            w[0] == "env"@ && 1 <= k < w.len() && !contains(#[trigger] w[k], "="@) && (forall|j: int|
                1 <= j < k ==> contains(#[trigger] w[j], "="@)) implies cleaned_pid_command(cmd)[0]
            == w[k] by {
            assert(first_plain_word(w, k));
            let c = choose|c: int| first_plain_word(w, c);
            if c < k {
                assert(contains(w[c], "="@));
            } else if k < c {
                assert(contains(w[k], "="@));
            }
        }
        if w[0] == "env"@ && (forall|j: int| 1 <= j < w.len() ==> contains(#[trigger] w[j], "="@)) {
            if exists|k: int| first_plain_word(w, k) {
                let k = choose|k: int| first_plain_word(w, k);
                assert(contains(w[k], "="@));
            }
        }
    }
}

/// The window a restored window is placed through: when some current window
/// has its class, the move is addressed to a window of that class with the
/// highest process id, after which every window of that class has a lower
/// process id; when none has, the move names only the workspace.
#[verifier::spinoff_prover]
pub proof fn lemma_restored_window_target(plan: WindowPlan, app: UwsmAppState, clients: Seq<HyprlandClient>)
    requires
        plans_window(plan, app, clients),
    ensures
        (exists|j: int| 0 <= j < clients.len() && #[trigger] clients[j].class@ == app.class@) ==> exists|i: int|
            {
                &&& 0 <= i < clients.len()
                &&& #[trigger] clients[i].class@ == app.class@
                &&& forall|j: int|
                    0 <= j < clients.len() && #[trigger] clients[j].class@ == app.class@ ==> clients[j].pid
                        <= clients[i].pid
                &&& forall|j: int|
                    i < j < clients.len() && #[trigger] clients[j].class@ == app.class@ ==> clients[j].pid
                        < clients[i].pid
                &&& plan.move_command@ == "movetoworkspacesilent "@ + signed_decimal(
                    app.workspace_id as int,
                ) + ",address:"@ + clients[i].address@
            },
        (forall|j: int| 0 <= j < clients.len() ==> #[trigger] clients[j].class@ != app.class@)
            ==> plan.move_command@ == "movetoworkspacesilent "@ + signed_decimal(app.workspace_id as int),
{
    let class = app.class@;
    if exists|j: int| 0 <= j < clients.len() && #[trigger] clients[j].class@ == class {
        lemma_newest_exists(clients, class);
        let i = target_window(clients, class)->0;
        assert(newest_of_class(clients, class, i));
    } else {
        if exists|i: int| newest_of_class(clients, class, i) {
            let i = choose|i: int| newest_of_class(clients, class, i);
            assert(clients[i].class@ == class);
        }
    }
}

/// Among the first `n` windows, the last of those of `class` with the
/// highest process id, when there is one.
proof fn lemma_newest_prefix(clients: Seq<HyprlandClient>, class: Seq<char>, n: int)
    requires
        0 <= n <= clients.len(),
    ensures
        (exists|j: int| 0 <= j < n && #[trigger] clients[j].class@ == class) ==> {
            let b = newest_prefix(clients, class, n);
            &&& 0 <= b < n
            &&& clients[b].class@ == class
            &&& forall|j: int| 0 <= j < n && #[trigger] clients[j].class@ == class ==> clients[j].pid <= clients[b].pid
            &&& forall|j: int| b < j < n && #[trigger] clients[j].class@ == class ==> clients[j].pid < clients[b].pid
        },
        (forall|j: int| 0 <= j < n ==> #[trigger] clients[j].class@ != class) ==> newest_prefix(clients, class, n) < 0,
    decreases n,
{
    if n > 0 {
        lemma_newest_prefix(clients, class, n - 1);
        if !(exists|j: int| 0 <= j < n - 1 && #[trigger] clients[j].class@ == class) {
            assert forall|j: int| 0 <= j < n - 1 implies #[trigger] clients[j].class@ != class by {}
        }
    }
}

/// Among the windows, when one has `class`, a newest one exists.
proof fn lemma_newest_exists(clients: Seq<HyprlandClient>, class: Seq<char>)
    requires
        exists|j: int| 0 <= j < clients.len() && #[trigger] clients[j].class@ == class,
    ensures
        target_window(clients, class) is Some,
{
    lemma_newest_prefix(clients, class, clients.len() as int);
    let b = newest_prefix(clients, class, clients.len() as int);
    assert(newest_of_class(clients, class, b));
}

/// The position, among the first `n` windows, of the last one of `class`
/// with the highest process id.
spec fn newest_prefix(clients: Seq<HyprlandClient>, class: Seq<char>, n: int) -> int
    decreases n,
{
    if n <= 0 {
        -1
    } else {
        let b = newest_prefix(clients, class, n - 1);
        if clients[n - 1].class@ == class && (b < 0 || clients[n - 1].pid >= clients[b].pid) {
            n - 1
        } else {
            b
        }
    }
}


} // verus!
