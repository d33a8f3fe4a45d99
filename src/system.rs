//! The reconciler: it keeps the bar's workspace slots in step with the window manager,
//! one slot per frame, and turns clicks on workspace buttons into switch commands.
//!
//! Each frame the host first hands over the UI events of the frame (`click_commands`),
//! then the window-manager events that arrived (`observe_events`), and, while a sweep
//! is pending (`needs_update`), the current workspace list (`sweep_step`). A rebuilt
//! slot's new button entity is then bound with `bind`.
use vstd::prelude::*;

use crate::workspace::{ButtonSpec, EntityRef, Workspace, WorkspaceInfo, WorkspaceView};

verus! {

/// An event of the window manager's event stream, as far as the engine tells them apart.
#[derive(Clone, Copy, Debug, PartialEq, Eq, Structural)]
pub enum InboundEvent {
    /// Some workspace was created, removed, renamed, focused or moved.
    WorkspaceChanged,
    /// Any other kind of event; the engine ignores it.
    Other,
}

/// The kind of an event on the UI surface's event stream.
#[derive(Clone, Copy, Debug, PartialEq, Eq, Structural)]
pub enum UiEventKind {
    Click,
    Other,
}

/// An event on the UI surface's event stream.
#[derive(Clone, Copy, Debug, PartialEq, Eq, Structural)]
pub struct UiEvent {
    pub kind: UiEventKind,
    pub target: EntityRef,
}

/// The work that one step of a sweep leaves to the rendering layer: delete `released`,
/// if any, then build `button` and bind it to `slot`.
#[derive(Clone, Debug)]
pub struct Rebuild {
    pub slot: usize,
    pub released: Option<EntityRef>,
    pub button: ButtonSpec,
}

/// The engine's state: the slots, the last observed number of workspaces, the next
/// slot to reconcile, and whether a sweep is pending.
pub struct RegistryView {
    pub slots: Seq<WorkspaceView>,
    pub count: nat,
    pub cursor: nat,
    pub dirty: bool,
}

/// No entity is bound to two slots.
pub open spec fn entities_distinct(slots: Seq<WorkspaceView>) -> bool {
    forall|i: int, j: int|
        0 <= i < slots.len() && 0 <= j < slots.len() && i != j && (#[trigger] slots[i]).entity
            is Some ==> slots[i].entity != (#[trigger] slots[j]).entity
}

/// `entity` is bound to some slot.
pub open spec fn is_bound(slots: Seq<WorkspaceView>, entity: EntityRef) -> bool {
    exists|i: int| 0 <= i < slots.len() && (#[trigger] slots[i]).entity == Some(entity)
}

impl RegistryView {
    pub open spec fn wf(self) -> bool {
        &&& self.cursor <= self.slots.len()
        &&& self.count > 0 ==> self.cursor < self.count
        &&& self.count == 0 ==> self.cursor == 0
        &&& entities_distinct(self.slots)
    }
}

/// The command that switches the window manager to the workspace named `name`.
pub open spec fn switch_command(name: Seq<char>) -> Seq<char> {
    "workspace "@ + name
}

/// The slot that `entity` is bound to, where it is bound.
pub open spec fn slot_of(slots: Seq<WorkspaceView>, entity: EntityRef) -> int {
    choose|i: int| 0 <= i < slots.len() && (#[trigger] slots[i]).entity == Some(entity)
}

/// The switch command that the UI event `event` asks for: a click on a bound button
/// asks to switch to its slot's workspace.
pub open spec fn command_for(slots: Seq<WorkspaceView>, event: UiEvent) -> Option<Seq<char>> {
    if event.kind == UiEventKind::Click && is_bound(slots, event.target) {
        Some(switch_command(slots[slot_of(slots, event.target)].name))
    } else {
        None
    }
}

/// The switch commands that the UI events `events` ask for, in order.
pub open spec fn commands_for(slots: Seq<WorkspaceView>, events: Seq<UiEvent>) -> Seq<Seq<char>>
    decreases events.len(),
{
    if events.len() == 0 {
        Seq::empty()
    } else {
        let before = commands_for(slots, events.drop_last());
        match command_for(slots, events.last()) {
            Some(c) => before.push(c),
            None => before,
        }
    }
}

/// The state after the window-manager events `events` were observed: any workspace
/// change makes a sweep pending, and nothing else changes.
pub open spec fn observed(s: RegistryView, events: Seq<InboundEvent>) -> RegistryView {
    RegistryView {
        slots: s.slots,
        count: s.count,
        cursor: s.cursor,
        dirty: s.dirty || events.contains(InboundEvent::WorkspaceChanged),
    }
}

/// A sweep step does work: a sweep is pending and the workspace list is not empty.
pub open spec fn steps(s: RegistryView, reply: Seq<WorkspaceInfo>) -> bool {
    s.dirty && reply.len() > 0
}

/// The slot that a sweep step reconciles: the cursor, or the first slot where the
/// workspace list has shrunk below the cursor.
pub open spec fn sweep_slot(s: RegistryView, reply: Seq<WorkspaceInfo>) -> nat {
    if s.cursor < reply.len() {
        s.cursor
    } else {
        0
    }
}

/// A slot just redrawn for `info`, before its new button is bound.
pub open spec fn drawn(info: WorkspaceInfo) -> WorkspaceView {
    WorkspaceView { name: info.name@, entity: None }
}

/// The state after one sweep step with the workspace list `reply`.
pub open spec fn sweep_next(s: RegistryView, reply: Seq<WorkspaceInfo>) -> RegistryView {
    if !steps(s, reply) {
        s
    } else {
        let slot = sweep_slot(s, reply);
        let slots = if slot < s.slots.len() {
            s.slots.update(slot as int, drawn(reply[slot as int]))
        } else {
            s.slots.push(drawn(reply[slot as int]))
        };
        let wrapped = slot + 1 >= reply.len();
        RegistryView {
            slots,
            count: reply.len(),
            cursor: if wrapped {
                0
            } else {
                slot + 1
            },
            dirty: !wrapped,
        }
    }
}

/// The state after `entity` was offered as the button of `slot`: it is bound where the
/// slot exists, holds no entity, and `entity` is bound nowhere.
pub open spec fn binds(s: RegistryView, slot: nat, entity: EntityRef) -> bool {
    slot < s.slots.len() && s.slots[slot as int].entity is None && !is_bound(s.slots, entity)
}

/// The engine that keeps the bar's workspace slots in step with the window manager.
pub struct WorkspaceSystem {
    workspaces: Vec<Workspace>,
    number_of_workspaces: usize,
    workspace_to_draw: usize,
    update_workspaces: bool,
}

impl View for WorkspaceSystem {
    type V = RegistryView;

    closed spec fn view(&self) -> RegistryView {
        RegistryView {
            slots: self.workspaces@.map_values(|w: Workspace| w@),
            count: self.number_of_workspaces as nat,
            cursor: self.workspace_to_draw as nat,
            dirty: self.update_workspaces,
        }
    }
}

impl WorkspaceSystem {
    pub open spec fn wf(&self) -> bool {
        self@.wf()
    }

    /// An engine with no slots, that has yet to draw the workspaces: its first sweep is
    /// pending.
    pub fn new() -> (s: WorkspaceSystem)
        ensures
            s.wf(),
            s@.slots == Seq::<WorkspaceView>::empty(),
            s@.count == 0,
            s@.cursor == 0,
            s@.dirty,
    {
        let s = WorkspaceSystem {
            workspaces: Vec::new(),
            number_of_workspaces: 0,
            workspace_to_draw: 0,
            update_workspaces: true,
        };
        assert(s@.slots =~= Seq::<WorkspaceView>::empty());
        s
    }

    /// Whether a sweep is pending, so that the workspace list is to be queried.
    pub fn needs_update(&self) -> (r: bool)
        ensures
            r == self@.dirty,
    {
        self.update_workspaces
    }

    /// The number of workspaces last observed.
    pub fn workspace_count(&self) -> (r: usize)
        ensures
            r == self@.count,
    {
        self.number_of_workspaces
    }

    /// The next slot to reconcile.
    pub fn cursor(&self) -> (r: usize)
        ensures
            r == self@.cursor,
    {
        self.workspace_to_draw
    }

    /// The number of slots drawn so far.
    pub fn slot_count(&self) -> (r: usize)
        ensures
            r == self@.slots.len(),
    {
        self.workspaces.len()
    }

    /// The slot `slot`, where it has been drawn.
    pub fn slot(&self, slot: usize) -> (r: Option<&Workspace>)
        ensures
            match r {
                Some(w) => slot < self@.slots.len() && w@ == self@.slots[slot as int],
                None => slot >= self@.slots.len(),
            },
    {
        if slot < self.workspaces.len() {
            Some(&self.workspaces[slot])
        } else {
            None
        }
    }
}

impl WorkspaceSystem {
    /// The switch command that a UI event asks for: a click on the button bound to a
    /// slot switches to that slot's workspace; any other event asks for nothing.
    pub fn click_command(&self, event: &UiEvent) -> (r: Option<String>)
        requires
            self.wf(),
        ensures
            r is Some <==> (event.kind == UiEventKind::Click && is_bound(self@.slots, event.target)),
            forall|i: int|
                0 <= i < self@.slots.len() && event.kind == UiEventKind::Click
                    && (#[trigger] self@.slots[i]).entity == Some(event.target) ==> (r matches Some(
                    c,
                ) && c@ == switch_command(self@.slots[i].name)),
            match r {
                Some(c) => command_for(self@.slots, *event) == Some(c@),
                None => command_for(self@.slots, *event) is None,
            },
    {
        match event.kind {
            UiEventKind::Click => {},
            UiEventKind::Other => {
                return None;
            },
        }
        let mut i: usize = 0;
        while i < self.workspaces.len()
            invariant
                self.wf(),
                event.kind == UiEventKind::Click,
                i <= self.workspaces@.len(),
                forall|k: int| 0 <= k < i ==> (#[trigger] self@.slots[k]).entity != Some(event.target),
            decreases self.workspaces@.len() - i,
        {
            let w = &self.workspaces[i];
            if w.has_entity(event.target) {
                let command = String::from_str("workspace ").concat(w.name());
                assert(self@.slots[i as int] == w@);
                proof {
                    let j = slot_of(self@.slots, event.target);
                    assert(is_bound(self@.slots, event.target));
                    assert(self@.slots[j].entity == Some(event.target));
                    assert(j == i);
                }
                return Some(command);
            }
            assert(self@.slots[i as int] == w@);
            i = i + 1;
        }
        None
    }

    /// The switch commands that the UI events of a frame ask for, in order.
    pub fn click_commands(&self, events: &Vec<UiEvent>) -> (r: Vec<String>)
        requires
            self.wf(),
        ensures
            r@.map_values(|c: String| c@) == commands_for(self@.slots, events@),
    {
        let mut commands: Vec<String> = Vec::new();
        let mut k: usize = 0;
        while k < events.len()
            invariant
                self.wf(),
                k <= events@.len(),
                commands@.map_values(|c: String| c@) == commands_for(
                    self@.slots,
                    events@.subrange(0, k as int),
                ),
            decreases events@.len() - k,
        {
            let ghost before = commands@;
            assert(events@.subrange(0, k + 1).drop_last() =~= events@.subrange(0, k as int));
            assert(events@.subrange(0, k + 1).last() == events@[k as int]);
            match self.click_command(&events[k]) {
                Some(c) => {
                    commands.push(c);
                    assert(commands@.map_values(|c: String| c@) =~= before.map_values(
                        |c: String| c@,
                    ).push(commands@.last()@));
                },
                None => {},
            }
            k = k + 1;
        }
        assert(events@.subrange(0, k as int) =~= events@);
        commands
    }

    /// Observes the window-manager events that arrived since the last frame: any
    /// workspace change makes a sweep pending. A burst of changes starts one sweep.
    pub fn observe_events(&mut self, events: &Vec<InboundEvent>)
        requires
            old(self).wf(),
        ensures
            final(self).wf(),
            final(self)@ == observed(old(self)@, events@),
    {
        let mut changed = false;
        let mut i: usize = 0;
        while i < events.len()
            invariant
                i <= events@.len(),
                changed == events@.subrange(0, i as int).contains(InboundEvent::WorkspaceChanged),
            decreases events@.len() - i,
        {
            proof {
                let pre = events@.subrange(0, i as int);
                let next = events@.subrange(0, i + 1);
                assert(next =~= pre.push(events@[i as int]));
                if pre.contains(InboundEvent::WorkspaceChanged) {
                    let k = choose|k: int| 0 <= k < pre.len() && pre[k] == InboundEvent::WorkspaceChanged;
                    assert(next[k] == InboundEvent::WorkspaceChanged);
                }
                if next.contains(InboundEvent::WorkspaceChanged) && events@[i as int] != InboundEvent::WorkspaceChanged {
                    let k = choose|k: int| 0 <= k < next.len() && next[k] == InboundEvent::WorkspaceChanged;
                    assert(pre[k] == InboundEvent::WorkspaceChanged);
                }
                if events@[i as int] == InboundEvent::WorkspaceChanged {
                    assert(next[i as int] == InboundEvent::WorkspaceChanged);
                }
            }
            match events[i] {
                InboundEvent::WorkspaceChanged => {
                    changed = true;
                },
                InboundEvent::Other => {},
            }
            i = i + 1;
        }
        assert(events@.subrange(0, events@.len() as int) =~= events@);
        if changed {
            self.update_workspaces = true;
        }
    }

    /// One step of a sweep, given the workspace list just queried. Where no sweep is
    /// pending, or the list is empty, nothing changes and nothing is to be rebuilt.
    /// Otherwise one slot is redrawn: its old button is released, the next slot becomes
    /// the cursor, and the sweep ends once the cursor wraps back to the first slot.
    pub fn sweep_step(&mut self, reply: &Vec<WorkspaceInfo>) -> (r: Option<Rebuild>)
        requires
            old(self).wf(),
        ensures
            final(self).wf(),
            final(self)@ == sweep_next(old(self)@, reply@),
            reply@.len() == 0 ==> final(self)@ == old(self)@,
            r is Some <==> steps(old(self)@, reply@),
            r matches Some(b) ==> {
                let slot = sweep_slot(old(self)@, reply@);
                &&& b.slot == slot
                &&& b.button.shows(reply@[slot as int], slot)
                &&& b.released == (if slot < old(self)@.slots.len() {
                    old(self)@.slots[slot as int].entity
                } else {
                    None
                })
            },
    {
        if !self.update_workspaces || reply.len() == 0 {
            return None;
        }
        let ghost before = self@;
        let n = reply.len();
        self.number_of_workspaces = n;
        if self.workspace_to_draw >= n {
            self.workspace_to_draw = 0;
        }
        let slot = self.workspace_to_draw;
        if slot == self.workspaces.len() {
            self.workspaces.push(Workspace::new());
        }
        let ghost pushed = self.workspaces@;
        let mut w = self.workspaces.remove(slot);
        let (released, button) = w.update(&reply[slot], slot);
        let ghost drawn_w = w;
        self.workspaces.insert(slot, w);
        assert(self.workspaces@ =~= pushed.update(slot as int, drawn_w));
        if slot >= n - 1 {
            self.workspace_to_draw = 0;
            self.update_workspaces = false;
        } else {
            self.workspace_to_draw = slot + 1;
        }
        proof {
            let want = sweep_next(before, reply@);
            if slot < before.slots.len() {
                assert(self@.slots =~= before.slots.update(slot as int, drawn(reply@[slot as int])));
            } else {
                assert(self@.slots =~= before.slots.push(drawn(reply@[slot as int])));
            }
            assert(self@.slots == want.slots);
            lemma_sweep_keeps_wf(before, reply@);
        }
        Some(Rebuild { slot, released, button })
    }

    /// Binds `entity`, just built, as the button of `slot`. It is bound only where the
    /// slot exists, holds no entity, and `entity` is bound to no slot; the result says
    /// whether it was.
    pub fn bind(&mut self, slot: usize, entity: EntityRef) -> (bound: bool)
        requires
            old(self).wf(),
        ensures
            final(self).wf(),
            bound == binds(old(self)@, slot as nat, entity),
            bound ==> final(self)@ == (RegistryView {
                slots: old(self)@.slots.update(
                    slot as int,
                    WorkspaceView { name: old(self)@.slots[slot as int].name, entity: Some(entity) },
                ),
                ..old(self)@
            }),
            !bound ==> final(self)@ == old(self)@,
    {
        if slot >= self.workspaces.len() {
            return false;
        }
        let occupied = match self.workspaces[slot].entity_ref() {
            Some(_) => true,
            None => false,
        };
        if occupied {
            return false;
        }
        let mut i: usize = 0;
        while i < self.workspaces.len()
            invariant
                self.wf(),
                i <= self.workspaces@.len(),
                forall|k: int| 0 <= k < i ==> (#[trigger] self@.slots[k]).entity != Some(entity),
            decreases self.workspaces@.len() - i,
        {
            if self.workspaces[i].has_entity(entity) {
                assert(self@.slots[i as int].entity == Some(entity));
                return false;
            }
            i = i + 1;
        }
        let ghost before = self@;
        let mut w = self.workspaces.remove(slot);
        let ghost removed = self.workspaces@;
        w.bind(entity);
        self.workspaces.insert(slot, w);
        proof {
            assert(self@.slots =~= before.slots.update(
                slot as int,
                WorkspaceView { name: before.slots[slot as int].name, entity: Some(entity) },
            ));
            assert forall|i: int, j: int|
                0 <= i < self@.slots.len() && 0 <= j < self@.slots.len() && i != j
                    && (#[trigger] self@.slots[i]).entity is Some implies self@.slots[i].entity
                != (#[trigger] self@.slots[j]).entity by {
                if i != slot && j != slot {
                    assert(before.slots[i] == self@.slots[i]);
                    assert(before.slots[j] == self@.slots[j]);
                } else if i == slot {
                    assert(before.slots[j] == self@.slots[j]);
                } else {
                    assert(before.slots[i] == self@.slots[i]);
                }
            }
        }
        true
    }
}

/// The state after `k` sweep steps, each given the same workspace list `reply`.
pub open spec fn after_steps(s: RegistryView, reply: Seq<WorkspaceInfo>, k: nat) -> RegistryView
    decreases k,
{
    if k == 0 {
        s
    } else {
        sweep_next(after_steps(s, reply, (k - 1) as nat), reply)
    }
}

/// Observing a burst of window-manager events that holds at least one workspace change
/// leaves the engine as one such event does: a pending sweep, with the cursor and the
/// slots untouched. A burst starts one sweep, not one per event.
pub proof fn lemma_changes_coalesce(s: RegistryView, events: Seq<InboundEvent>)
    requires
        events.contains(InboundEvent::WorkspaceChanged),
    ensures
        observed(s, events) == observed(s, seq![InboundEvent::WorkspaceChanged]),
        observed(s, events).dirty,
        observed(s, events).cursor == s.cursor,
        observed(s, events).slots == s.slots,
{
    assert(seq![InboundEvent::WorkspaceChanged][0] == InboundEvent::WorkspaceChanged);
}

/// Every state between two sweep steps is well formed.
pub proof fn lemma_sweep_keeps_wf(s: RegistryView, reply: Seq<WorkspaceInfo>)
    requires
        s.wf(),
    ensures
        sweep_next(s, reply).wf(),
{
    if steps(s, reply) {
        let t = sweep_next(s, reply);
        let slot = sweep_slot(s, reply);
        assert forall|i: int, j: int|
            0 <= i < t.slots.len() && 0 <= j < t.slots.len() && i != j
                && (#[trigger] t.slots[i]).entity is Some implies t.slots[i].entity
            != (#[trigger] t.slots[j]).entity by {
            if i != slot && j != slot {
                assert(s.slots[i] == t.slots[i]);
                assert(s.slots[j] == t.slots[j]);
            }
        }
    }
}

/// A sweep step changes no slot but the one it reconciles, and adds at most one slot:
/// each frame releases at most one button and builds at most one.
pub proof fn lemma_one_slot_per_step(s: RegistryView, reply: Seq<WorkspaceInfo>)
    requires
        s.wf(),
    ensures
        sweep_next(s, reply).slots.len() <= s.slots.len() + 1,
        forall|i: int|
            0 <= i < s.slots.len() && (i != sweep_slot(s, reply) || !steps(s, reply)) ==> (
            #[trigger] sweep_next(s, reply).slots[i]) == s.slots[i],
{
}

/// The first `k` steps of a sweep that starts at the first slot, given an unchanging
/// workspace list longer than `k`, visit slots `0, 1, ..., k - 1` in turn and leave the
/// sweep pending.
proof fn lemma_sweep_prefix(s: RegistryView, reply: Seq<WorkspaceInfo>, k: nat)
    requires
        s.dirty,
        s.cursor == 0,
        k < reply.len(),
    ensures
        after_steps(s, reply, k).dirty,
        after_steps(s, reply, k).cursor == k,
        after_steps(s, reply, k).count == (if k == 0 {
            s.count
        } else {
            reply.len()
        }),
        after_steps(s, reply, k).slots.len() >= k,
        forall|i: int|
            0 <= i < k ==> (#[trigger] after_steps(s, reply, k).slots[i]).name
                == reply[i].name@,
    decreases k,
{
    if k > 0 {
        let k1 = (k - 1) as nat;
        lemma_sweep_prefix(s, reply, k1);
        let p = after_steps(s, reply, k1);
        assert(sweep_slot(p, reply) == k1);
        let t = after_steps(s, reply, k);
        assert(t == sweep_next(p, reply));
        assert forall|i: int| 0 <= i < k implies (#[trigger] t.slots[i]).name == reply[i].name@ by {
            if i < k1 {
                assert(t.slots[i] == p.slots[i]);
            }
        }
    }
}

/// A sweep that starts at the first slot, given an unchanging workspace list of `n`
/// workspaces, reconciles slots `0, 1, ..., n - 1`, each once, in increasing order, one
/// per step; the sweep stays pending until the last of them, and then the cursor is back
/// at the first slot with no sweep pending and every slot holding its workspace's name.
pub proof fn lemma_sweep_visits_each_slot_once(s: RegistryView, reply: Seq<WorkspaceInfo>)
    requires
        s.dirty,
        s.cursor == 0,
        reply.len() > 0,
    ensures
        forall|k: nat|
            k < reply.len() ==> steps(#[trigger] after_steps(s, reply, k), reply) && sweep_slot(
                after_steps(s, reply, k),
                reply,
            ) == k,
        forall|k: nat| 0 < k < reply.len() ==> (#[trigger] after_steps(s, reply, k)).dirty,
        !after_steps(s, reply, reply.len()).dirty,
        after_steps(s, reply, reply.len()).cursor == 0,
        after_steps(s, reply, reply.len()).count == reply.len(),
        after_steps(s, reply, reply.len()).slots.len() >= reply.len(),
        forall|i: int|
            0 <= i < reply.len() ==> (#[trigger] after_steps(s, reply, reply.len()).slots[i]).name
                == reply[i].name@,
{
    assert forall|k: nat| k < reply.len() implies steps(#[trigger] after_steps(s, reply, k), reply)
        && sweep_slot(after_steps(s, reply, k), reply) == k by {
        lemma_sweep_prefix(s, reply, k);
    }
    assert forall|k: nat| 0 < k < reply.len() implies (#[trigger] after_steps(
        s,
        reply,
        k,
    )).dirty by {
        lemma_sweep_prefix(s, reply, k);
    }
    let n = reply.len();
    let last = (n - 1) as nat;
    lemma_sweep_prefix(s, reply, last);
    let p = after_steps(s, reply, last);
    let t = after_steps(s, reply, n);
    assert(t == sweep_next(p, reply));
    assert forall|i: int| 0 <= i < n implies (#[trigger] t.slots[i]).name == reply[i].name@ by {
        if i < last {
            assert(t.slots[i] == p.slots[i]);
        }
    }
}

} // verus!
