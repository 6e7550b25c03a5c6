//! What the server keeps of an entity, and what an input command does to it.

use crate::message::InputCommand;
use crate::scalar::is_near_zero;
use crate::scalar::jump_impulse_is_not_near_zero;
use crate::scalar::near_zero;
use crate::scalar::spawn_position;
use crate::scalar::Vector3;
use crate::scalar::JUMP_IMPULSE;
use crate::scalar::ZERO;
use vstd::prelude::*;

verus! {

/// Where an entity is and how fast it moves. The position is what snapshots
/// report; the velocity is what input commands set.
#[derive(Clone, Copy, Debug, PartialEq, Eq, Structural)]
pub struct EntityState {
    pub position: Vector3,
    pub velocity: Vector3,
}

/// The state in which an entity appears: at the spawn point, at rest.
pub open spec fn spawn_state() -> EntityState {
    EntityState { position: spawn_position(), velocity: Vector3 { x: ZERO, y: ZERO, z: ZERO } }
}

/// The velocity that a command leaves an entity with.
///
/// The direction replaces the two horizontal coordinates. The vertical one
/// becomes the jump impulse when the command starts a jump and the entity
/// stands; otherwise it stays as it is.
pub open spec fn steered(velocity: Vector3, cmd: InputCommand) -> Vector3 {
    Vector3 {
        x: cmd.direction.x,
        y: cmd.direction.y,
        z: if cmd.jump && is_near_zero(velocity.z) {
            JUMP_IMPULSE
        } else {
            velocity.z
        },
    }
}

/// Whether the command gives the entity the jump impulse.
pub open spec fn jump_fires(velocity: Vector3, cmd: InputCommand) -> bool {
    cmd.jump && is_near_zero(velocity.z)
}

impl EntityState {
    /// The state of a newly connected client's entity.
    pub fn spawn() -> (state: EntityState)
        ensures
            state == spawn_state(),
    {
        EntityState { position: Vector3::spawn_point(), velocity: Vector3::zero() }
    }

    /// The state after a command: the position is kept, the velocity is steered.
    pub fn after_input(self, cmd: &InputCommand) -> (state: EntityState)
        ensures
            state.position == self.position,
            state.velocity == steered(self.velocity, *cmd),
    {
        EntityState { position: self.position, velocity: steer(self.velocity, cmd) }
    }
}

/// Applies a command to a velocity.
pub fn steer(velocity: Vector3, cmd: &InputCommand) -> (steered_velocity: Vector3)
    ensures
        steered_velocity == steered(velocity, *cmd),
{
    let vertical: u32 = if cmd.jump && near_zero(velocity.z) {
        JUMP_IMPULSE
    } else {
        velocity.z
    };
    Vector3 { x: cmd.direction.x, y: cmd.direction.y, z: vertical }
}

/// A jump fires on a standing entity and only there: a command that starts a
/// jump gives a standing entity the impulse, and leaves the vertical speed of
/// any other entity alone, as does a command that starts none.
pub proof fn jump_is_edge_triggered(velocity: Vector3, cmd: InputCommand)
    ensures
        cmd.jump && is_near_zero(velocity.z) ==> steered(velocity, cmd).z == JUMP_IMPULSE,
        !is_near_zero(velocity.z) ==> steered(velocity, cmd).z == velocity.z,
        !cmd.jump ==> steered(velocity, cmd).z == velocity.z,
{
}

/// A jump fires once: after the command that fired it, a second command that
/// starts a jump changes nothing of the vertical speed.
pub proof fn jump_fires_once(velocity: Vector3, first: InputCommand, second: InputCommand)
    requires
        is_near_zero(velocity.z),
        first.jump,
    ensures
        steered(velocity, first).z == JUMP_IMPULSE,
        !jump_fires(steered(velocity, first), second),
        steered(steered(velocity, first), second).z == JUMP_IMPULSE,
{
    jump_impulse_is_not_near_zero();
}

/// A command sets the horizontal velocity to its direction, whatever it was.
pub proof fn direction_overwrites(velocity: Vector3, other: Vector3, cmd: InputCommand)
    ensures
        steered(velocity, cmd).x == cmd.direction.x,
        steered(velocity, cmd).y == cmd.direction.y,
        velocity.z == other.z ==> steered(velocity, cmd) == steered(other, cmd),
{
}

/// Two commands applied one after the other give what the second alone gives,
/// but for one case: a jump that the first fired stays when the second asks
/// for none.
pub proof fn later_command_overrides(velocity: Vector3, first: InputCommand, second: InputCommand)
    ensures
        steered(steered(velocity, first), second).x == steered(velocity, second).x,
        steered(steered(velocity, first), second).y == steered(velocity, second).y,
        !jump_fires(velocity, first) || second.jump ==> steered(steered(velocity, first), second)
            == steered(velocity, second),
        jump_fires(velocity, first) && !second.jump ==> steered(
            steered(velocity, first),
            second,
        ).z == JUMP_IMPULSE,
{
    jump_impulse_is_not_near_zero();
}

} // verus!
