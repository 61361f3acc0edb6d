//! Input reduction: from the set of currently-held keys to a net direction.
//!
//! `W`/`Up` pull `+y`, `S`/`Down` pull `-y`, `D`/`Right` pull `+x`,
//! `A`/`Left` pull `-x`; every other key is ignored for movement but still
//! counts as input being held. Contributions are summed, so opposite keys
//! cancel and a doubled binding (say `W` together with `Up`) counts twice.

use vstd::prelude::*;

verus! {

/// Snapshot of the keys held during one tick. One flag per movement binding;
/// `any_other` records whether some non-movement key is held as well.
#[derive(Clone, Copy, PartialEq, Eq, Structural, Debug)]
pub struct KeySet {
    pub w: bool,
    pub a: bool,
    pub s: bool,
    pub d: bool,
    pub up: bool,
    pub down: bool,
    pub left: bool,
    pub right: bool,
    pub any_other: bool,
}

/// Net movement direction for one tick. Each component is the signed count
/// of bindings pulling along that axis, so it lies in `-2 ..= 2`; only its
/// sign enters the chosen step.
#[derive(Clone, Copy, PartialEq, Eq, Structural, Debug)]
pub struct MoveDir {
    pub dx: i8,
    pub dy: i8,
}

impl KeySet {
    /// No key held at all.
    pub fn empty() -> (k: KeySet)
        ensures
            no_keys_held(k),
    {
        KeySet {
            w: false,
            a: false,
            s: false,
            d: false,
            up: false,
            down: false,
            left: false,
            right: false,
            any_other: false,
        }
    }
}

/// Whether no key at all is held this tick.
pub open spec fn no_keys_held(k: KeySet) -> bool {
    !k.w && !k.a && !k.s && !k.d && !k.up && !k.down && !k.left && !k.right && !k.any_other
}

/// Signed sum of the `x`-axis contributions of the held keys.
pub open spec fn net_dx(k: KeySet) -> int {
    (if k.d { 1int } else { 0 }) + (if k.right { 1int } else { 0 }) - (if k.a { 1int } else { 0 })
        - (if k.left { 1int } else { 0 })
}

/// Signed sum of the `y`-axis contributions of the held keys.
pub open spec fn net_dy(k: KeySet) -> int {
    (if k.w { 1int } else { 0 }) + (if k.up { 1int } else { 0 }) - (if k.s { 1int } else { 0 })
        - (if k.down { 1int } else { 0 })
}

/// Reduces the held keys to the net direction of this tick.
pub fn reduce_input(keys: &KeySet) -> (d: MoveDir)
    ensures
        d.dx == net_dx(*keys),
        d.dy == net_dy(*keys),
{
    let mut dx: i8 = 0;
    let mut dy: i8 = 0;
    if keys.w {
        dy = dy + 1;
    }
    if keys.up {
        dy = dy + 1;
    }
    if keys.s {
        dy = dy - 1;
    }
    if keys.down {
        dy = dy - 1;
    }
    if keys.d {
        dx = dx + 1;
    }
    if keys.right {
        dx = dx + 1;
    }
    if keys.a {
        dx = dx - 1;
    }
    if keys.left {
        dx = dx - 1;
    }
    MoveDir { dx, dy }
}

} // verus!
