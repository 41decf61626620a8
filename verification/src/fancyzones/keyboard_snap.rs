//! Moving a window between zones with the arrow keys.

use vstd::prelude::*;
use crate::fancyzones::layout::lookup::combined_range;
use crate::fancyzones::layout::zones::{zone_pair, zone_pairs};
use crate::fancyzones::layout::Layout;
use crate::fancyzones::data::stores::copy_zones;
use crate::fancyzones::rect::Rect;
use crate::fancyzones::util::{VK_DOWN, VK_LEFT, VK_RIGHT, VK_UP};

verus! {

/// An arrow direction.
#[derive(Debug, Clone, Copy, PartialEq, Eq, Structural)]
pub enum SnapDirection {
    Left,
    Right,
    Up,
    Down,
}

impl SnapDirection {
    /// The virtual-key code of the arrow key.
    pub fn vk_code(&self) -> (k: u32)
        ensures
            k == match *self {
                SnapDirection::Left => VK_LEFT,
                SnapDirection::Right => VK_RIGHT,
                SnapDirection::Up => VK_UP,
                SnapDirection::Down => VK_DOWN,
            },
    {
        match self {
            Self::Left => VK_LEFT,
            Self::Right => VK_RIGHT,
            Self::Up => VK_UP,
            Self::Down => VK_DOWN,
        }
    }
}

/// The zone reached from `current` by index: left steps down and right steps
/// up, both wrapping around; without a current zone, left gives the last zone
/// and right the first; up and down keep the current zone.
pub open spec fn snap_index(current: Option<i64>, zone_count: int, direction: SnapDirection) -> Option<i64> {
    if zone_count == 0 {
        None
    } else {
        match direction {
            SnapDirection::Left => match current {
                Some(c) => if c > 0 {
                    Some((c - 1) as i64)
                } else {
                    Some((zone_count - 1) as i64)
                },
                None => Some((zone_count - 1) as i64),
            },
            SnapDirection::Right => match current {
                Some(c) => if c < zone_count - 1 {
                    Some((c + 1) as i64)
                } else {
                    Some(0)
                },
                None => Some(0),
            },
            _ => current,
        }
    }
}

/// Moves to the previous or next zone by index, wrapping around.
pub fn snap_by_index(current_zone: Option<i64>, zone_count: usize, direction: SnapDirection) -> (r: Option<i64>)
    requires
        zone_count <= i64::MAX,
    ensures
        r == snap_index(current_zone, zone_count as int, direction),
{
    if zone_count == 0 {
        return None;
    }
    let n = zone_count as i64;
    match direction {
        SnapDirection::Left => match current_zone {
            Some(current) => if current > 0 {
                Some(current - 1)
            } else {
                Some(n - 1)
            },
            None => Some(n - 1),
        },
        SnapDirection::Right => match current_zone {
            Some(current) => if current < n - 1 {
                Some(current + 1)
            } else {
                Some(0)
            },
            None => Some(0),
        },
        _ => current_zone,
    }
}

/// Stepping right undoes stepping left and the other way round, for every
/// zone of a non-empty layout; a full round of `zone_count` steps to the right
/// from the first zone comes back to it.
pub proof fn lemma_snap_left_right_inverse(c: i64, zone_count: int)
    requires
        0 <= c < zone_count <= i64::MAX,
    ensures
        snap_index(snap_index(Some(c), zone_count, SnapDirection::Right), zone_count, SnapDirection::Left)
            == Some(c),
        snap_index(snap_index(Some(c), zone_count, SnapDirection::Left), zone_count, SnapDirection::Right)
            == Some(c),
        c < zone_count - 1 ==> snap_index(Some(c), zone_count, SnapDirection::Right) == Some((c + 1) as i64),
        snap_index(Some((zone_count - 1) as i64), zone_count, SnapDirection::Right) == Some(0i64),
{
}

/// The selection after extending toward a target zone position: the zones
/// spanned from the selection to the target; the selection unchanged when it
/// is empty, the layout has no zones or the position names no zone.
pub open spec fn extended_selection(zs: Seq<(Rect, i64)>, initial: Seq<i64>, target: int) -> Seq<i64> {
    if initial.len() == 0 || zs.len() == 0 || target < 0 || target >= zs.len() {
        initial
    } else {
        combined_range(zs, initial, seq![zs[target].1])
    }
}

/// Extends a zone selection toward the zone at position `target` of the
/// layout (the position the directional search picked).
pub fn extend_selection_toward(layout: &Layout, initial_zones: &Vec<i64>, target: usize) -> (r: Vec<i64>)
    ensures
        r@ == extended_selection(layout.spec_zones(), initial_zones@, target as int),
{
    let zones = layout.zones();
    if initial_zones.len() == 0 || zones.len() == 0 || target >= zones.len() {
        return copy_zones(initial_zones);
    }
    let target_id = zones[target].id();
    proof {
        assert(zone_pairs(zones@)[target as int] == zone_pair(zones@[target as int]));
    }
    let mut final_zones: Vec<i64> = Vec::new();
    final_zones.push(target_id);
    proof {
        assert(final_zones@ =~= seq![layout.spec_zones()[target as int].1]);
    }
    layout.get_combined_zone_range(initial_zones, &final_zones)
}

} // verus!
