//! What always holds of the console.

use vstd::prelude::*;

use crate::console::action::Action;
use crate::console::app::{
    act, act_all, clients_without, client_did, entered, smallest, tasks_without,
    told, AppView, ModalView, ScreenNotify, TaskCmd,
};
use crate::console::client::{ClientEvent, ClientHandle, ClientId};
use crate::console::effect::EffectView;
use crate::console::keymap::action_for;
use crate::console::state::{lemma_position_from, position_of};
use crate::console::task_view::TaskView;
use crate::console::unique_name::{law_unique_name_is_free, other_names};
use crate::kernel::task::TaskId;
use crate::kernel::task_screen::TaskScreenCmd;
use crate::term::key::Key;
use crate::term::TermEvent;

verus! {

/// An effect that asks for the screen of a task.
pub open spec fn observes(e: EffectView) -> bool {
    e matches EffectView::Screen { id, cmd } && cmd is Observe
}

/// What an action keeps: the end, the keymap, the number of tasks, a valid
/// selection, and that nothing is observed.
pub open spec fn act_keeps(app: AppView, action: Action) -> bool {
    let step = act(app, action);
    &&& step.app.stop == app.stop
    &&& step.app.keymap == app.keymap
    &&& step.app.tasks.len() == app.tasks.len()
    &&& app.wf() ==> step.app.wf()
    &&& forall|i: int| 0 <= i < step.sent.len() ==> !observes(#[trigger] step.sent[i])
}

#[verifier::rlimit(60)]
#[verifier::spinoff_prover]
proof fn lemma_act(app: AppView, action: Action)
    ensures
        act_keeps(app, action),
    decreases action,
{
    match action {
        Action::Batch { cmds } => {
            lemma_act_all(app, cmds@);
        },
        Action::NextTask => {
            lemma_selecting(app, (app.list.selected + 1) % app.tasks.len() as int);
        },
        Action::PrevTask => {
            lemma_selecting(
                app,
                (app.list.selected + app.tasks.len() - 1) % app.tasks.len() as int,
            );
        },
        Action::SelectTask { index } => {
            lemma_selecting(app, index as int);
        },
        _ => {},
    }
    if app.tasks.len() > 0 && app.wf() {
        lemma_wrap(app.list.selected, app.tasks.len() as int);
    }
}

proof fn lemma_selecting(app: AppView, index: int)
    ensures
        app.wf() && index >= 0 ==> app.selecting(index).wf(),
        app.selecting(index).tasks == app.tasks,
{
}

proof fn lemma_act_all(app: AppView, cmds: Seq<Action>)
    ensures
        act_all(app, cmds).app.stop == app.stop,
        act_all(app, cmds).app.keymap == app.keymap,
        act_all(app, cmds).app.tasks.len() == app.tasks.len(),
        app.wf() ==> act_all(app, cmds).app.wf(),
        forall|i: int|
            0 <= i < act_all(app, cmds).sent.len() ==> !observes(
                #[trigger] act_all(app, cmds).sent[i],
            ),
    decreases cmds,
{
    if cmds.len() > 0 {
        lemma_act_all(app, cmds.drop_last());
        let before = act_all(app, cmds.drop_last());
        lemma_act(before.app, cmds.last());
        let last = act(before.app, cmds.last());
        assert forall|i: int|
            0 <= i < act_all(app, cmds).sent.len() implies !observes(
            #[trigger] act_all(app, cmds).sent[i],
        ) by {
            if i < before.sent.len() {
                assert(act_all(app, cmds).sent[i] == before.sent[i]);
            } else {
                assert(act_all(app, cmds).sent[i] == last.sent[i - before.sent.len()]);
            }
        }
    }
}

#[verifier::rlimit(60)]
#[verifier::spinoff_prover]
proof fn lemma_told_key(app: AppView, client_id: ClientId, key: Key)
    ensures
        ({
            let step = entered(app, client_id, TermEvent::Key(key));
            &&& step.app.stop == app.stop
            &&& app.wf() ==> step.app.wf()
            &&& forall|i: int| 0 <= i < step.sent.len() ==> !observes(#[trigger] step.sent[i])
        }),
{
    let bare = crate::console::app::bare_key(key);
    match action_for(app.keymap.spec_group(app.group()).by_key@, bare) {
        Some(action) => lemma_act(app, action),
        None => lemma_act(app, Action::SendKey { key: bare }),
    }
    match app.modal {
        Some(ModalView::RemoveTask(id)) => {
            lemma_act(AppView { modal: None, ..app }, Action::RemoveTask { id });
        },
        _ => {},
    }
}

/// Whatever the console is told, the selection stays one that the tasks have.
#[verifier::rlimit(60)]
#[verifier::spinoff_prover]
pub proof fn law_selection_stays_valid(app: AppView, cmd: TaskCmd)
    requires
        app.wf(),
    ensures
        told(app, cmd).app.wf(),
{
    match cmd {
        TaskCmd::Action(action) => lemma_act(app, action),
        TaskCmd::Client(ClientEvent::Input { client_id, event: TermEvent::Key(key) }) => {
            lemma_told_key(app, client_id, key);
        },
        TaskCmd::Screen(ScreenNotify::CopyPresent { task_id, .. }) => {
            lemma_position_from(app.tasks, task_id, 0);
        },
        TaskCmd::Task(id, _) => {
            lemma_position_from(app.tasks, id, 0);
            lemma_tasks_without(app.tasks, id);
            assert(told(app, cmd).app.wf());
        },
        TaskCmd::Client(_) => {
            assert(told(app, cmd).app.wf());
        },
        _ => {},
    }
}

/// Screens are observed only while someone is attached.
pub proof fn law_nobody_attached_nothing_observed(app: AppView, cmd: TaskCmd)
    requires
        told(app, cmd).app.clients.len() == 0,
    ensures
        forall|i: int|
            0 <= i < told(app, cmd).sent.len() ==> !observes(#[trigger] told(app, cmd).sent[i]),
{
    match cmd {
        TaskCmd::Action(action) => lemma_act(app, action),
        TaskCmd::Client(ClientEvent::Input { client_id, event: TermEvent::Key(key) }) => {
            lemma_told_key(app, client_id, key);
        },
        _ => {},
    }
}

/// Only a stop or a kill ends the console, and nothing takes it back.
pub proof fn law_only_stop_ends(app: AppView, cmd: TaskCmd)
    ensures
        told(app, cmd).app.stop == (app.stop || cmd is Stop || cmd is Kill),
{
    match cmd {
        TaskCmd::Action(action) => lemma_act(app, action),
        TaskCmd::Client(ClientEvent::Input { client_id, event: TermEvent::Key(key) }) => {
            lemma_told_key(app, client_id, key);
        },
        _ => {},
    }
}

proof fn lemma_smallest(clients: Seq<ClientHandle>)
    requires
        clients.len() > 0,
    ensures
        forall|i: int|
            0 <= i < clients.len() ==> smallest(clients).width <= (
            #[trigger] clients[i]).size.width && smallest(clients).height
                <= clients[i].size.height,
        exists|i: int|
            0 <= i < clients.len() && smallest(clients).width == (#[trigger] clients[i]).size.width,
        exists|i: int|
            0 <= i < clients.len() && smallest(clients).height == (
            #[trigger] clients[i]).size.height,
    decreases clients.len(),
{
    if clients.len() == 1 {
        assert(smallest(clients).width == clients[0].size.width);
    } else {
        let init = clients.drop_last();
        lemma_smallest(init);
        assert forall|i: int| 0 <= i < clients.len() implies smallest(clients).width <= (
        #[trigger] clients[i]).size.width && smallest(clients).height <= clients[i].size.height by {
            if i < init.len() {
                assert(init[i] == clients[i]);
            }
        }
        let w = choose|i: int|
            0 <= i < init.len() && smallest(init).width == (#[trigger] init[i]).size.width;
        let h = choose|i: int|
            0 <= i < init.len() && smallest(init).height == (#[trigger] init[i]).size.height;
        assert(init[w] == clients[w] && init[h] == clients[h]);
        let last = clients.len() - 1;
        assert(smallest(clients).width == clients[w].size.width || smallest(clients).width
            == clients[last].size.width);
        assert(smallest(clients).height == clients[h].size.height || smallest(clients).height
            == clients[last].size.height);
    }
}

/// The grid fits every client, and it is as large as that allows.
pub proof fn law_grid_fits_the_smallest_client(app: AppView)
    requires
        app.clients.len() > 0,
    ensures
        forall|i: int|
            0 <= i < app.clients.len() ==> app.fitted().size.width <= (
            #[trigger] app.clients[i]).size.width && app.fitted().size.height
                <= app.clients[i].size.height,
        exists|i: int|
            0 <= i < app.clients.len() && app.fitted().size.width == (
            #[trigger] app.clients[i]).size.width,
        exists|i: int|
            0 <= i < app.clients.len() && app.fitted().size.height == (
            #[trigger] app.clients[i]).size.height,
{
    lemma_smallest(app.clients);
}

proof fn lemma_clients_without(clients: Seq<ClientHandle>, id: ClientId)
    ensures
        forall|i: int|
            0 <= i < clients_without(clients, id).len() ==> (
            #[trigger] clients_without(clients, id)[i]).id != id,
    decreases clients.len(),
{
    if clients.len() > 0 {
        lemma_clients_without(clients.drop_last(), id);
        let before = clients_without(clients.drop_last(), id);
        assert forall|i: int| 0 <= i < clients_without(clients, id).len() implies (
        #[trigger] clients_without(clients, id)[i]).id != id by {
            if i < before.len() {
                assert(before[i].id != id);
            }
        }
    }
}

/// A client that has left is not among the clients, and when it was the last
/// one, every task is told and no copy mode is left on show.
pub proof fn law_client_leaves(app: AppView, id: ClientId)
    ensures
        ({
            let step = client_did(app, ClientEvent::Disconnected { client_id: id });
            &&& forall|i: int|
                0 <= i < step.app.clients.len() ==> (#[trigger] step.app.clients[i]).id != id
            &&& step.app.clients.len() == 0 ==> {
                &&& step.sent.len() == app.tasks.len()
                &&& forall|i: int|
                    0 <= i < app.tasks.len() ==> #[trigger] step.sent[i] == (EffectView::Screen {
                        id: app.tasks[i].id,
                        cmd: TaskScreenCmd::Unobserve,
                    })
                &&& forall|i: int|
                    0 <= i < app.tasks.len() ==> (#[trigger] step.app.tasks[i]).present is None
            }
        }),
{
    lemma_clients_without(app.clients, id);
}

/// A client that detaches is treated as one that has left.
pub proof fn law_detaching_is_leaving(app: AppView, id: ClientId)
    ensures
        act(app, Action::Detach { client_id: id }) == client_did(
            app,
            ClientEvent::Disconnected { client_id: id },
        ),
{
}

/// Going to the next task and back selects the task one came from.
pub proof fn law_next_then_previous(app: AppView)
    requires
        app.wf(),
        app.tasks.len() > 0,
    ensures
        act(act(app, Action::NextTask).app, Action::PrevTask).app.list.selected
            == app.list.selected,
        act(act(app, Action::PrevTask).app, Action::NextTask).app.list.selected
            == app.list.selected,
{
    let n = app.tasks.len() as int;
    let s = app.list.selected;
    lemma_wrap(s, n);
    if s + 1 < n {
        lemma_wrap(s + 1, n);
    } else {
        lemma_wrap(0, n);
    }
    if s > 0 {
        lemma_wrap(s - 1, n);
    } else {
        lemma_wrap(n - 1, n);
    }
}

pub proof fn lemma_wrap(s: int, n: int)
    requires
        0 <= s < n,
    ensures
        (s + 1) % n == (if s + 1 < n {
            s + 1
        } else {
            0
        }),
        (s + n - 1) % n == (if s > 0 {
            s - 1
        } else {
            n - 1
        }),
{
    if s + 1 < n {
        assert((s + 1) % n == s + 1) by (nonlinear_arith)
            requires
                0 <= s + 1 < n,
        ;
    } else {
        assert(n % n == 0) by (nonlinear_arith)
            requires
                n > 0,
        ;
    }
    if s > 0 {
        assert((s + n - 1) % n == s - 1) by (nonlinear_arith)
            requires
                0 < s < n,
        ;
    } else {
        assert((n - 1) % n == n - 1) by (nonlinear_arith)
            requires
                n > 0,
        ;
    }
}

proof fn lemma_tasks_without(tasks: Seq<TaskView>, id: TaskId)
    ensures
        tasks_without(tasks, id).len() <= tasks.len(),
        position_of(tasks, id) is None ==> tasks_without(tasks, id) == tasks,
        (exists|i: int| 0 <= i < tasks.len() && (#[trigger] tasks[i]).id == id)
            ==> tasks_without(tasks, id).len() < tasks.len(),
    decreases tasks.len(),
{
    lemma_position_from(tasks, id, 0);
    if tasks.len() > 0 {
        let init = tasks.drop_last();
        lemma_tasks_without(init, id);
        lemma_position_from(init, id, 0);
        if position_of(tasks, id) is None {
            assert(init.push(tasks.last()) =~= tasks);
        }
        if exists|i: int| 0 <= i < tasks.len() && (#[trigger] tasks[i]).id == id {
            let i = choose|i: int| 0 <= i < tasks.len() && (#[trigger] tasks[i]).id == id;
            if tasks.last().id != id {
                assert(init[i].id == id);
            }
        }
    } else {
        assert(tasks_without(tasks, id) =~= tasks);
    }
}

/// No two tasks have the same id.
pub open spec fn distinct(tasks: Seq<TaskView>) -> bool {
    forall|i: int, j: int|
        0 <= i < tasks.len() && 0 <= j < tasks.len() && i != j ==> (#[trigger] tasks[i]).id != (
        #[trigger] tasks[j]).id
}

proof fn lemma_remove_one(tasks: Seq<TaskView>, id: TaskId, at: int)
    requires
        distinct(tasks),
        0 <= at < tasks.len(),
        tasks[at].id == id,
    ensures
        tasks_without(tasks, id) == tasks.remove(at),
    decreases tasks.len(),
{
    let init = tasks.drop_last();
    assert(distinct(init)) by {
        assert forall|i: int, j: int|
            0 <= i < init.len() && 0 <= j < init.len() && i != j implies (#[trigger] init[i]).id
            != (#[trigger] init[j]).id by {
            assert(tasks[i].id != tasks[j].id);
        }
    }
    if at == tasks.len() - 1 {
        lemma_position_from(init, id, 0);
        if position_of(init, id) is Some {
            let i = position_of(init, id)->Some_0;
            assert(tasks[i].id != tasks[at].id);
        }
        lemma_tasks_without(init, id);
        assert(tasks.remove(at) =~= init);
    } else {
        lemma_remove_one(init, id, at);
        assert(tasks[tasks.len() - 1].id != tasks[at].id);
        assert(init.remove(at).push(tasks.last()) =~= tasks.remove(at));
    }
}

/// When another task goes, the selected task stays selected.
pub proof fn law_selection_follows_its_task(app: AppView, id: TaskId)
    requires
        app.wf(),
        distinct(app.tasks),
        app.current() is Some,
        app.current_id() != Some(id),
    ensures
        app.without_task(id).current() == app.current(),
{
    let s = app.list.selected;
    lemma_position_from(app.tasks, id, 0);
    lemma_tasks_without(app.tasks, id);
    match position_of(app.tasks, id) {
        Some(at) => {
            lemma_remove_one(app.tasks, id, at);
            if at < s {
                assert(app.tasks.remove(at)[s - 1] == app.tasks[s]);
            } else {
                assert(app.tasks.remove(at)[s] == app.tasks[s]);
            }
        },
        None => {},
    }
}

/// A task is renamed to a name that no other task has.
pub proof fn law_renaming_keeps_names_apart(app: AppView, name: String)
    requires
        app.current_id() is Some,
    ensures
        ({
            let id = app.current_id()->Some_0;
            let sent = act(app, Action::RenameTask { name }).sent;
            &&& sent.len() == 1
            &&& sent[0] is SetLabel
            &&& sent[0]->SetLabel_id == id
            &&& !other_names(crate::console::app::names_of(app.tasks), Some(id)).contains(
                sent[0]->SetLabel_label,
            )
        }),
{
    let id = app.current_id()->Some_0;
    law_unique_name_is_free(
        name@,
        other_names(crate::console::app::names_of(app.tasks), Some(id)),
    );
}

/// While a window is open, the mouse and the clipboard reach nothing behind
/// it.
pub proof fn law_modal_covers_the_console(app: AppView, client_id: ClientId, event: TermEvent)
    requires
        app.modal is Some,
        event is Mouse || event is Paste,
    ensures
        entered(app, client_id, event) == app.quietly(),
{
}

/// Letting go of a key does nothing.
pub proof fn law_release_does_nothing(app: AppView, client_id: ClientId, key: Key)
    requires
        key.kind is Release,
    ensures
        entered(app, client_id, TermEvent::Key(key)) == app.quietly(),
{
}

/// Focus on the terminal or zoom alike, a key that is bound to nothing goes to
/// the selected task, unless a window takes it.
pub proof fn law_unbound_keys_reach_the_task(app: AppView, client_id: ClientId, key: Key)
    requires
        key.kind !is Release,
        app.modal is None,
        app.scope !is Tasks,
        app.current_id() is Some,
        action_for(
            app.keymap.spec_group(app.group()).by_key@,
            crate::console::app::bare_key(key),
        ) is None,
    ensures
        entered(app, client_id, TermEvent::Key(key)).app == app,
        entered(app, client_id, TermEvent::Key(key)).sent == seq![
            EffectView::Input {
                id: app.current_id()->Some_0,
                key: crate::console::app::bare_key(key),
            },
        ],
{
}

/// What a window is known by.
pub proof fn law_what_windows_are(modal: crate::console::app::AppModal)
    ensures
        modal is Quit <==> modal@ is Quit,
        modal is CommandsMenu <==> modal@ is CommandsMenu,
        modal is AddTask <==> modal@ is AddTask,
        modal is RenameTask ==> modal@ == ModalView::RenameTask(modal->RenameTask_0.field()),
        modal is RemoveTask ==> modal@ == ModalView::RemoveTask(modal->RemoveTask_0.id),
        crate::console::app::modal_view(None) is None,
        crate::console::app::modal_view(Some(modal)) == Some(modal@),
{
}

} // verus!
