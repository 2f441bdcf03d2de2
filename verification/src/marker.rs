//! Painting markers where the possessed character aims.

use vstd::prelude::*;
use crate::character::{CharacterColor, CharacterRegistry};
use crate::units::{WorldPos, closer_than, within_reach};

verus! {

/// How close to the possessed character a surface must be to take a
/// marker: one world unit.
pub const MARKER_RANGE: i64 = 1_000_000;

/// Where the aim of the possessed character meets a surface.
#[derive(Clone, Copy, Debug, PartialEq, Eq)]
pub struct RayHit {
    pub position: WorldPos,
    /// The surface normal, in fixed-point steps per axis.
    pub normal: [i64; 3],
}

/// A marker on a surface, in the colour of the character that painted it.
#[derive(Clone, Copy, Debug, PartialEq, Eq)]
pub struct Marker {
    pub position: WorldPos,
    pub normal: [i64; 3],
    pub color: CharacterColor,
}

/// What one tick of aiming yields.
#[derive(Clone, Copy, Debug, PartialEq, Eq)]
pub struct Painted {
    /// The marker mask to show under the aim during this tick, if the aim
    /// meets a surface in range.
    pub preview: Option<Marker>,
    /// The marker to leave there for good, if the button was just pressed.
    pub decal: Option<Marker>,
}

/// What aiming from `character` yields: a surface in range shows the mask in
/// the character's colour and takes a marker when the button was pressed;
/// without a surface, or with one out of range, nothing is shown or placed.
pub open spec fn painted(hit: Option<RayHit>, character: WorldPos, color: CharacterColor, pressed: bool) -> Painted {
    match hit {
        Some(hit) if closer_than(hit.position, character, MARKER_RANGE as int) => {
            let marker = Marker { position: hit.position, normal: hit.normal, color };
            Painted {
                preview: Some(marker),
                decal: if pressed {
                    Some(marker)
                } else {
                    None
                },
            }
        },
        _ => Painted { preview: None, decal: None },
    }
}

/// Decides what to paint in this tick, given where the aim of the
/// possessed character meets a surface, if it does, and whether the paint
/// button was just pressed.
pub fn draw_markers(hit: Option<RayHit>, registry: &CharacterRegistry, pressed: bool) -> (result: Painted)
    requires
        registry.wf(),
    ensures
        result == painted(
            hit,
            registry@.slots[registry@.controlled]->0.position,
            registry@.slots[registry@.controlled]->0.color,
            pressed,
        ),
{
    let slot: usize = registry.controlled();
    match (hit, registry.position(slot), registry.color(slot)) {
        (Some(hit), Some(character), Some(color)) => {
            if within_reach(hit.position, character, MARKER_RANGE) {
                let marker = Marker { position: hit.position, normal: hit.normal, color };
                Painted {
                    preview: Some(marker),
                    decal: if pressed {
                        Some(marker)
                    } else {
                        None
                    },
                }
            } else {
                Painted { preview: None, decal: None }
            }
        },
        _ => Painted { preview: None, decal: None },
    }
}

} // verus!
