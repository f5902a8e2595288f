//! What the console sends.

use vstd::prelude::*;

use crate::console::client::ClientId;
use crate::kernel::kernel_message::{KernelCommand, KernelCommandView};
use crate::kernel::task::TaskId;
use crate::kernel::task_screen::TaskScreenCmd;
use crate::term::key::Key;

verus! {

/// Something that the console sends out.
#[derive(Debug, PartialEq, Eq)]
#[allow(inconsistent_fields)]
pub enum Effect {
    Kernel(KernelCommand),
    Screen { id: TaskId, cmd: TaskScreenCmd },
    Input { id: TaskId, key: Key },
    Paste { id: TaskId, text: String },
    Duplicate { id: TaskId, name: String },
    SetLabel { id: TaskId, label: String },
    /// Starts a task that runs a shell command.
    Spawn { name: String, shell: String },
    Clipboard { text: String },
    /// A key for the modal, whose answer comes back later.
    ModalKey { client_id: ClientId, key: Key },
    Bye { client_id: ClientId },
    Unsubscribe,
}

/// Something that the console sends out.
#[allow(inconsistent_fields)]
pub enum EffectView {
    Kernel(KernelCommandView),
    Screen { id: TaskId, cmd: TaskScreenCmd },
    Input { id: TaskId, key: Key },
    Paste { id: TaskId, text: Seq<char> },
    Duplicate { id: TaskId, name: Seq<char> },
    SetLabel { id: TaskId, label: Seq<char> },
    Spawn { name: Seq<char>, shell: Seq<char> },
    Clipboard { text: Seq<char> },
    ModalKey { client_id: ClientId, key: Key },
    Bye { client_id: ClientId },
    Unsubscribe,
}

impl View for Effect {
    type V = EffectView;

    open spec fn view(&self) -> EffectView {
        match self {
            Effect::Kernel(cmd) => EffectView::Kernel(cmd@),
            Effect::Screen { id, cmd } => EffectView::Screen { id: *id, cmd: *cmd },
            Effect::Input { id, key } => EffectView::Input { id: *id, key: *key },
            Effect::Paste { id, text } => EffectView::Paste { id: *id, text: text@ },
            Effect::Duplicate { id, name } => EffectView::Duplicate { id: *id, name: name@ },
            Effect::SetLabel { id, label } => EffectView::SetLabel { id: *id, label: label@ },
            Effect::Spawn { name, shell } => EffectView::Spawn { name: name@, shell: shell@ },
            Effect::Clipboard { text } => EffectView::Clipboard { text: text@ },
            Effect::ModalKey { client_id, key } => EffectView::ModalKey {
                client_id: *client_id,
                key: *key,
            },
            Effect::Bye { client_id } => EffectView::Bye { client_id: *client_id },
            Effect::Unsubscribe => EffectView::Unsubscribe,
        }
    }
}

/// The views of a list of effects.
pub open spec fn effect_views(v: Seq<Effect>) -> Seq<EffectView> {
    v.map_values(|e: Effect| e@)
}

/// One more effect.
pub fn emit(out: &mut Vec<Effect>, effect: Effect)
    ensures
        effect_views(final(out)@) == effect_views(old(out)@).push(effect@),
{
    out.push(effect);
    assert(effect_views(out@) =~= effect_views(old(out)@).push(effect@));
}

/// What the console sends is known by the same kinds, with the same tasks, keys and
/// texts, one by one.
pub proof fn law_what_effects_are(
    cmd: KernelCommand,
    id: TaskId,
    screen: TaskScreenCmd,
    key: Key,
    a: String,
    b: String,
    client_id: ClientId,
    v: Seq<Effect>,
    i: int,
)
    ensures
        Effect::Kernel(cmd)@ == EffectView::Kernel(cmd@),
        (Effect::Screen { id, cmd: screen })@ == (EffectView::Screen { id, cmd: screen }),
        (Effect::Input { id, key })@ == (EffectView::Input { id, key }),
        (Effect::Paste { id, text: a })@ == (EffectView::Paste { id, text: a@ }),
        (Effect::Duplicate { id, name: a })@ == (EffectView::Duplicate { id, name: a@ }),
        (Effect::SetLabel { id, label: a })@ == (EffectView::SetLabel { id, label: a@ }),
        (Effect::Spawn { name: a, shell: b })@ == (EffectView::Spawn { name: a@, shell: b@ }),
        (Effect::Clipboard { text: a })@ == (EffectView::Clipboard { text: a@ }),
        (Effect::ModalKey { client_id, key })@ == (EffectView::ModalKey { client_id, key }),
        (Effect::Bye { client_id })@ == (EffectView::Bye { client_id }),
        Effect::Unsubscribe@ == EffectView::Unsubscribe,
        effect_views(v).len() == v.len(),
        0 <= i < v.len() ==> effect_views(v)[i] == v[i]@,
{
}

} // verus!
