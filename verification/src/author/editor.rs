//! The editor: applies edit commands to a world and keeps what is needed to
//! undo and redo them.

use vstd::prelude::*;
use crate::common::{EntityId, Transform};
use crate::kernel::world::{World, WorldView};

verus! {

/// An editing command that can be applied to the world and reversed.
///
/// Each command carries enough context to undo itself.
#[derive(Clone, Copy, Debug)]
pub enum EditCommand {
    /// Spawn an entity. Undo = despawn it.
    Spawn { id: EntityId, transform: Transform },
    /// Despawn an entity. Undo = re-spawn it with its data.
    Despawn { id: EntityId, transform: Transform },
    /// Move an entity. Undo = restore old transform.
    SetTransform { id: EntityId, old: Transform, new: Transform },
}

impl EditCommand {
    /// The command that reverses this one.
    pub open spec fn spec_inverse(self) -> EditCommand {
        match self {
            EditCommand::Spawn { id, transform } => EditCommand::Despawn { id, transform },
            EditCommand::Despawn { id, transform } => EditCommand::Spawn { id, transform },
            EditCommand::SetTransform { id, old, new } => EditCommand::SetTransform {
                id,
                old: new,
                new: old,
            },
        }
    }

    /// The world after carrying out the command.
    pub open spec fn apply(self, world: WorldView) -> WorldView {
        match self {
            EditCommand::Spawn { id, transform } => world.spawn_with_id(id, transform),
            EditCommand::Despawn { id, transform } => world.despawn(id),
            EditCommand::SetTransform { id, old, new } => world.set_transform(id, new),
        }
    }

    /// Produce the inverse command (for undo).
    pub fn inverse(&self) -> (inverse: EditCommand)
        ensures
            inverse == self.spec_inverse(),
    {
        match self {
            EditCommand::Spawn { id, transform } => EditCommand::Despawn {
                id: *id,
                transform: *transform,
            },
            EditCommand::Despawn { id, transform } => EditCommand::Spawn {
                id: *id,
                transform: *transform,
            },
            EditCommand::SetTransform { id, old, new } => EditCommand::SetTransform {
                id: *id,
                old: *new,
                new: *old,
            },
        }
    }
}

/// Reversing a command twice gives the command back.
pub proof fn lemma_inverse_involution(command: EditCommand)
    ensures
        command.spec_inverse().spec_inverse() == command,
{
}

/// Undoing a command that was just carried out restores the entities: after
/// the command and then its inverse, the world holds the entities it held
/// before, provided the command took effect as recorded (a spawn under an
/// unused identifier, or a despawn or move of an entity that had the recorded
/// transform).
pub proof fn lemma_undo_restores_entities(world: WorldView, command: EditCommand)
    requires
        match command {
            EditCommand::Spawn { id, transform } => !world.state.entities.contains_key(id.0),
            EditCommand::Despawn { id, transform } => world.state.entities.contains_key(id.0)
                && world.state.entities[id.0].transform == transform,
            EditCommand::SetTransform { id, old, new } => world.state.entities.contains_key(id.0)
                && world.state.entities[id.0].transform == old,
        },
    ensures
        command.spec_inverse().apply(command.apply(world)).state.entities
            == world.state.entities,
{
    assert(command.spec_inverse().apply(command.apply(world)).state.entities
        =~= world.state.entities);
}

/// Errors from edit operations.
#[derive(Clone, Copy, Debug)]
pub enum EditError {
    /// The world holds no entity with this identifier.
    EntityNotFound(EntityId),
}

/// Editor with undo/redo support for non-destructive world authoring.
///
/// Every authoring operation is pushed on the undo stack, reversible via
/// `undo()` and re-applicable via `redo()`.
#[derive(Debug)]
pub struct Editor {
    undo_stack: Vec<EditCommand>,
    redo_stack: Vec<EditCommand>,
}

/// An editor as contracts see it: the commands that can be undone and those
/// that can be redone, each with the latest at the end.
pub struct EditorView {
    pub undo: Seq<EditCommand>,
    pub redo: Seq<EditCommand>,
}

impl View for Editor {
    type V = EditorView;

    closed spec fn view(&self) -> EditorView {
        EditorView { undo: self.undo_stack@, redo: self.redo_stack@ }
    }
}

impl EditorView {
    /// The editor after a new edit: the command can be undone, and nothing
    /// can be redone any more.
    pub open spec fn edited(self, command: EditCommand) -> EditorView {
        EditorView { undo: self.undo.push(command), redo: Seq::empty() }
    }
}

/// Carries out a command on the world.
fn apply_command(world: &mut World, cmd: &EditCommand)
    ensures
        final(world)@ == cmd.apply(old(world)@),
{
    match cmd {
        EditCommand::Spawn { id, transform } => {
            world.spawn_with_id(*id, *transform);
        },
        EditCommand::Despawn { id, .. } => {
            world.despawn(*id);
        },
        EditCommand::SetTransform { id, new, .. } => {
            world.set_transform(*id, *new);
        },
    }
}

impl Editor {
    /// Create a new editor.
    pub fn new() -> (editor: Editor)
        ensures
            editor@ == (EditorView { undo: Seq::empty(), redo: Seq::empty() }),
    {
        Editor { undo_stack: Vec::new(), redo_stack: Vec::new() }
    }

    /// Spawn an entity and push to undo stack.
    pub fn spawn(&mut self, world: &mut World, transform: Transform) -> (id: EntityId)
        ensures
            id.is_v4(),
            final(world)@ == old(world)@.spawn_with_id(id, transform),
            final(self)@ == old(self)@.edited(EditCommand::Spawn { id, transform }),
    {
        let id = world.spawn(transform);
        self.undo_stack.push(EditCommand::Spawn { id, transform });
        self.redo_stack.clear();
        id
    }

    /// Despawn an entity and push to undo stack. Fails, changing nothing, if
    /// the entity does not exist.
    pub fn despawn(&mut self, world: &mut World, id: EntityId) -> (result: Result<(), EditError>)
        ensures
            match old(world)@.state.lookup(id) {
                Some(data) => {
                    &&& result is Ok
                    &&& final(world)@ == old(world)@.despawn(id)
                    &&& final(self)@ == old(self)@.edited(
                        EditCommand::Despawn { id, transform: data.transform },
                    )
                },
                None => {
                    &&& result == Err::<(), EditError>(EditError::EntityNotFound(id))
                    &&& final(world)@ == old(world)@
                    &&& final(self)@ == old(self)@
                },
            },
    {
        match world.despawn(id) {
            Some(data) => {
                self.undo_stack.push(EditCommand::Despawn { id, transform: data.transform });
                self.redo_stack.clear();
                Ok(())
            },
            None => Err(EditError::EntityNotFound(id)),
        }
    }

    /// Set an entity's transform and push to undo stack. Fails, changing
    /// nothing, if the entity does not exist.
    pub fn set_transform(&mut self, world: &mut World, id: EntityId, new: Transform) -> (result:
        Result<(), EditError>)
        ensures
            match old(world)@.state.lookup(id) {
                Some(data) => {
                    &&& result is Ok
                    &&& final(world)@ == old(world)@.set_transform(id, new)
                    &&& final(self)@ == old(self)@.edited(
                        EditCommand::SetTransform { id, old: data.transform, new },
                    )
                },
                None => {
                    &&& result == Err::<(), EditError>(EditError::EntityNotFound(id))
                    &&& final(world)@ == old(world)@
                    &&& final(self)@ == old(self)@
                },
            },
    {
        let found = match world.get(id) {
            Some(data) => Some(data.transform),
            None => None,
        };
        match found {
            Some(old_transform) => {
                world.set_transform(id, new);
                self.undo_stack.push(EditCommand::SetTransform { id, old: old_transform, new });
                self.redo_stack.clear();
                Ok(())
            },
            None => Err(EditError::EntityNotFound(id)),
        }
    }

    /// Undo the last edit. Returns true if an operation was undone.
    pub fn undo(&mut self, world: &mut World) -> (undone: bool)
        ensures
            undone == (old(self)@.undo.len() > 0),
            !undone ==> final(self)@ == old(self)@ && final(world)@ == old(world)@,
            undone ==> {
                &&& final(world)@ == old(self)@.undo.last().spec_inverse().apply(old(world)@)
                &&& final(self)@.undo == old(self)@.undo.drop_last()
                &&& final(self)@.redo == old(self)@.redo.push(old(self)@.undo.last())
            },
    {
        match self.undo_stack.pop() {
            Some(cmd) => {
                let inverse = cmd.inverse();
                apply_command(world, &inverse);
                self.redo_stack.push(cmd);
                true
            },
            None => false,
        }
    }

    /// Redo the last undone edit. Returns true if an operation was redone.
    pub fn redo(&mut self, world: &mut World) -> (redone: bool)
        ensures
            redone == (old(self)@.redo.len() > 0),
            !redone ==> final(self)@ == old(self)@ && final(world)@ == old(world)@,
            redone ==> {
                &&& final(world)@ == old(self)@.redo.last().apply(old(world)@)
                &&& final(self)@.redo == old(self)@.redo.drop_last()
                &&& final(self)@.undo == old(self)@.undo.push(old(self)@.redo.last())
            },
    {
        match self.redo_stack.pop() {
            Some(cmd) => {
                apply_command(world, &cmd);
                self.undo_stack.push(cmd);
                true
            },
            None => false,
        }
    }

    /// Number of operations on the undo stack.
    pub fn undo_count(&self) -> (n: usize)
        ensures
            n == self@.undo.len(),
    {
        self.undo_stack.len()
    }

    /// Number of operations on the redo stack.
    pub fn redo_count(&self) -> (n: usize)
        ensures
            n == self@.redo.len(),
    {
        self.redo_stack.len()
    }

    /// Whether there are operations that can be undone.
    pub fn can_undo(&self) -> (possible: bool)
        ensures
            possible == (self@.undo.len() > 0),
    {
        self.undo_stack.len() > 0
    }

    /// Whether there are operations that can be redone.
    pub fn can_redo(&self) -> (possible: bool)
        ensures
            possible == (self@.redo.len() > 0),
    {
        self.redo_stack.len() > 0
    }
}

impl Default for Editor {
    fn default() -> (editor: Editor)
        ensures
            editor@ == (EditorView { undo: Seq::empty(), redo: Seq::empty() }),
    {
        Editor::new()
    }
}

} // verus!
