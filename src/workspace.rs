//! One workspace slot of the bar: the workspace it shows and the button that shows it.
use vstd::prelude::*;

use crate::style::{select_style, style_of, Style};

verus! {

/// A handle to a UI entity owned by the rendering layer.
#[derive(Clone, Copy, Debug, PartialEq, Eq, Structural)]
pub struct EntityRef {
    pub id: u32,
    pub generation: i32,
}

/// What the window manager reports of one workspace.
#[derive(Clone, Debug)]
pub struct WorkspaceInfo {
    pub num: i32,
    pub name: String,
    pub visible: bool,
    pub focused: bool,
}

/// The separator between an output's namespace and a workspace's own name.
pub open spec fn is_separator(c: char) -> bool {
    c == ':'
}

/// The label shown for a workspace: what follows the last separator of its raw name,
/// or the raw name itself where it holds no separator.
pub open spec fn label_of(name: Seq<char>) -> Seq<char>
    decreases name.len(),
{
    if name.len() == 0 {
        name
    } else if is_separator(name.last()) {
        Seq::empty()
    } else {
        label_of(name.drop_last()).push(name.last())
    }
}

/// Where no separator stands in `name[i..]`, the label of `name` is the label of
/// `name[..i]` followed by `name[i..]`.
proof fn lemma_label_of_split(name: Seq<char>, i: int)
    requires
        0 <= i <= name.len(),
        forall|k: int| i <= k < name.len() ==> !is_separator(#[trigger] name[k]),
    ensures
        label_of(name) == label_of(name.subrange(0, i)) + name.subrange(i, name.len() as int),
    decreases name.len() - i,
{
    if i < name.len() {
        lemma_label_of_split(name, i + 1);
        let pre = name.subrange(0, i + 1);
        assert(pre.drop_last() =~= name.subrange(0, i));
        assert(label_of(pre) == label_of(name.subrange(0, i)).push(name[i]));
        assert(label_of(name.subrange(0, i)).push(name[i]) + name.subrange(i + 1, name.len() as int)
            =~= label_of(name.subrange(0, i)) + name.subrange(i, name.len() as int));
    } else {
        assert(name.subrange(0, i) =~= name);
        assert(name.subrange(i, name.len() as int) =~= Seq::<char>::empty());
        assert(label_of(name) + Seq::<char>::empty() =~= label_of(name));
    }
}

/// Derives the label shown for a workspace from its raw name.
pub fn display_label(name: &str) -> (r: &str)
    ensures
        r@ == label_of(name@),
{
    let len = name.unicode_len();
    let mut i: usize = len;
    while i > 0 && name.get_char(i - 1) != ':'
        invariant
            len == name@.len(),
            i <= len,
            forall|k: int| i <= k < len ==> !is_separator(#[trigger] name@[k]),
        decreases i,
    {
        i = i - 1;
    }
    proof {
        lemma_label_of_split(name@, i as int);
        if i > 0 {
            let pre = name@.subrange(0, i as int);
            assert(pre.last() == name@[i - 1]);
            assert(label_of(pre) == Seq::<char>::empty());
            assert(Seq::<char>::empty() + name@.subrange(i as int, len as int)
                =~= name@.subrange(i as int, len as int));
        } else {
            assert(name@.subrange(0, 0) =~= Seq::<char>::empty());
            assert(Seq::<char>::empty() + name@.subrange(0, len as int) =~= name@.subrange(
                0,
                len as int,
            ));
        }
    }
    name.substring_char(i, len)
}

/// The width of a slot on the bar, in pixels.
pub const SLOT_WIDTH: u128 = 20;

/// The distance from the bar's left edge to the first slot, in pixels.
pub const SLOT_MARGIN: u128 = 10;

/// The horizontal position of the button in `slot`.
pub open spec fn slot_x(slot: nat) -> nat {
    (SLOT_WIDTH * slot + SLOT_MARGIN) as nat
}

/// A button to be built for a workspace slot.
#[derive(Clone, Debug)]
pub struct ButtonSpec {
    pub slot: usize,
    /// Horizontal position in pixels; wide enough for every slot index.
    pub x: u128,
    pub label: String,
    pub style: Style,
}

impl ButtonSpec {
    /// This is the button that shows `info` in `slot`.
    pub open spec fn shows(&self, info: WorkspaceInfo, slot: nat) -> bool {
        &&& self.slot == slot
        &&& self.x == slot_x(slot)
        &&& self.label@ == label_of(info.name@)
        &&& self.style == style_of(info.visible, info.focused)
    }
}

/// Lays out the button that shows `info` in `slot`.
pub fn button_for(info: &WorkspaceInfo, slot: usize) -> (b: ButtonSpec)
    ensures
        b.shows(*info, slot as nat),
{
    let label = display_label(info.name.as_str());
    ButtonSpec {
        slot,
        x: SLOT_WIDTH * (slot as u128) + SLOT_MARGIN,
        label: label.to_owned(),
        style: select_style(info.visible, info.focused),
    }
}

/// What a workspace slot holds: the raw name of the workspace last drawn there, and
/// the button entity that shows it, if one is bound.
pub struct WorkspaceView {
    pub name: Seq<char>,
    pub entity: Option<EntityRef>,
}

/// One workspace slot. It owns at most one live button entity at a time.
pub struct Workspace {
    name: String,
    entity: Option<EntityRef>,
}

impl View for Workspace {
    type V = WorkspaceView;

    closed spec fn view(&self) -> WorkspaceView {
        WorkspaceView { name: self.name@, entity: self.entity }
    }
}

impl Workspace {
    /// An empty slot: no name and no entity.
    pub fn new() -> (w: Workspace)
        ensures
            w@.name == Seq::<char>::empty(),
            w@.entity == None::<EntityRef>,
    {
        Workspace { name: String::new(), entity: None }
    }

    /// The raw name of the workspace last drawn in this slot.
    pub fn name(&self) -> (r: &str)
        ensures
            r@ == self@.name,
    {
        self.name.as_str()
    }

    /// Whether `entity` is the button bound to this slot.
    pub fn has_entity(&self, entity: EntityRef) -> (r: bool)
        ensures
            r == (self@.entity == Some(entity)),
    {
        match self.entity {
            Some(e) => e == entity,
            None => false,
        }
    }

    /// The button entity bound to this slot, if any.
    pub fn entity_ref(&self) -> (r: Option<EntityRef>)
        ensures
            r == self@.entity,
    {
        self.entity
    }

    /// Redraws this slot for `info`: releases the bound entity, which the caller is to
    /// delete, records the workspace's raw name, and returns the button that the caller
    /// is to build and then `bind`.
    pub fn update(&mut self, info: &WorkspaceInfo, slot: usize) -> (r: (
        Option<EntityRef>,
        ButtonSpec,
    ))
        ensures
            r.0 == old(self)@.entity,
            r.1.shows(*info, slot as nat),
            final(self)@.name == info.name@,
            final(self)@.entity == None::<EntityRef>,
    {
        let released = self.entity;
        self.entity = None;
        let button = button_for(info, slot);
        self.name = info.name.clone();
        (released, button)
    }

    /// Binds `entity` as this slot's button and hands back the one it replaces, which
    /// the caller is to delete.
    pub fn bind(&mut self, entity: EntityRef) -> (released: Option<EntityRef>)
        ensures
            released == old(self)@.entity,
            final(self)@.entity == Some(entity),
            final(self)@.name == old(self)@.name,
    {
        let released = self.entity;
        self.entity = Some(entity);
        released
    }
}

} // verus!
