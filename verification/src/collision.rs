//! Collision queries and the swept integer movement resolver.
//!
//! All queries test the four corner tiles of an axis-aligned pixel
//! rectangle. `colliding` fails closed (out of bounds counts as colliding),
//! `in_support` fails open. `checked_move` resolves a requested velocity one
//! pixel at a time, vertical axis first, so walls of any thickness stop an
//! actor and Support tiles are permeable except from above while falling.

use vstd::prelude::*;
use crate::tile::{TileCollision, TILE_SIZE};
use crate::world::{World, WorldView};
use crate::util::{div_floor, iabs};

verus! {

/// Bound on start coordinates accepted by `checked_move`.
pub const COORD_LIMIT: i32 = 0x1000_0000;

/// Bound on rectangle sizes accepted by the queries.
pub const SIZE_LIMIT: i32 = 0x0100_0000;

/// Bound on velocity magnitudes accepted by `checked_move`.
pub const VEL_LIMIT: i32 = 0x0010_0000;

/// Bound on coordinates accepted by the corner queries; wide enough for
/// every position `checked_move` can step through.
pub const QUERY_LIMIT: i32 = 0x2000_0000;

/// The tile column or row of a pixel coordinate.
pub open spec fn px_tile(p: int) -> int {
    p / (TILE_SIZE as int)
}

/// Whether a pixel rectangle is small and central enough for the queries.
pub open spec fn rect_ok(x: int, y: int, w: int, h: int) -> bool {
    &&& -QUERY_LIMIT <= x <= QUERY_LIMIT
    &&& -QUERY_LIMIT <= y <= QUERY_LIMIT
    &&& 0 <= w <= SIZE_LIMIT
    &&& 0 <= h <= SIZE_LIMIT
}

/// The §4.1 corner test: whether any corner tile of the rectangle has
/// collision kind `coll`; indeterminate when a corner lies out of bounds.
pub open spec fn corner_check(
    v: WorldView,
    x: int,
    y: int,
    w: int,
    h: int,
    coll: TileCollision,
) -> Option<bool> {
    let tx1 = px_tile(x);
    let ty1 = px_tile(y);
    let tx2 = px_tile(x + w - 1);
    let ty2 = px_tile(y + h - 1);
    if !(0 <= tx1 < v.width) || !(0 <= tx2 < v.width) || !(0 <= ty1 < v.height) || !(0 <= ty2
        < v.height) {
        None
    } else {
        Some(
            v.tile(tx1, ty1).collision == coll || v.tile(tx1, ty2).collision == coll || v.tile(
                tx2,
                ty1,
            ).collision == coll || v.tile(tx2, ty2).collision == coll,
        )
    }
}

/// Whether the rectangle touches a Solid corner tile; fails closed.
pub open spec fn colliding_spec(v: WorldView, x: int, y: int, w: int, h: int) -> bool {
    match corner_check(v, x, y, w, h, TileCollision::Solid) {
        Some(b) => b,
        None => true,
    }
}

/// Whether the rectangle one pixel below collides: standing on firm ground.
pub open spec fn on_ground_spec(v: WorldView, x: int, y: int, w: int, h: int) -> bool {
    colliding_spec(v, x, y + 1, w, h)
}

/// Whether the rectangle touches a Support corner tile; fails open.
pub open spec fn in_support_spec(v: WorldView, x: int, y: int, w: int, h: int) -> bool {
    match corner_check(v, x, y, w, h, TileCollision::Support) {
        Some(b) => b,
        None => false,
    }
}

/// Whether the rectangle one pixel below is in a Support tile.
pub open spec fn on_support_spec(v: WorldView, x: int, y: int, w: int, h: int) -> bool {
    in_support_spec(v, x, y + 1, w, h)
}

impl World {
    /// Whether any corner tile of the rectangle has collision kind `coll`,
    /// or `None` if a corner lies outside the grid.
    pub fn check_tile_type(&self, x: i32, y: i32, w: i32, h: i32, coll: TileCollision) -> (r:
        Option<bool>)
        requires
            self@.wf(),
            rect_ok(x as int, y as int, w as int, h as int),
        ensures
            r == corner_check(self@, x as int, y as int, w as int, h as int, coll),
    {
        let tx1 = div_floor(x, TILE_SIZE);
        let ty1 = div_floor(y, TILE_SIZE);
        let tx2 = div_floor(x + w - 1, TILE_SIZE);
        let ty2 = div_floor(y + h - 1, TILE_SIZE);

        if tx1 < 0 || tx1 >= self.width as i32 || tx2 < 0 || tx2 >= self.width as i32 || ty1 < 0
            || ty1 >= self.height as i32 || ty2 < 0 || ty2 >= self.height as i32 {
            None
        } else {
            Some(
                self.get_tile(tx1 as usize, ty1 as usize).collision == coll || self.get_tile(
                    tx1 as usize,
                    ty2 as usize,
                ).collision == coll || self.get_tile(tx2 as usize, ty1 as usize).collision == coll
                    || self.get_tile(tx2 as usize, ty2 as usize).collision == coll,
            )
        }
    }

    /// Whether the rectangle touches a Solid corner tile; out of bounds
    /// counts as colliding, so entities cannot leave the map.
    pub fn colliding(&self, x: i32, y: i32, w: i32, h: i32) -> (r: bool)
        requires
            self@.wf(),
            rect_ok(x as int, y as int, w as int, h as int),
        ensures
            r == colliding_spec(self@, x as int, y as int, w as int, h as int),
    {
        match self.check_tile_type(x, y, w, h, TileCollision::Solid) {
            Some(ret) => ret,
            None => true,
        }
    }

    /// Whether the rectangle stands on firm (Solid) footing.
    pub fn on_ground(&self, x: i32, y: i32, w: i32, h: i32) -> (r: bool)
        requires
            self@.wf(),
            rect_ok(x as int, y as int + 1, w as int, h as int),
        ensures
            r == on_ground_spec(self@, x as int, y as int, w as int, h as int),
    {
        self.colliding(x, y + 1, w, h)
    }

    /// Whether the rectangle touches a Support corner tile; out of bounds
    /// counts as not in support.
    pub fn in_support(&self, x: i32, y: i32, w: i32, h: i32) -> (r: bool)
        requires
            self@.wf(),
            rect_ok(x as int, y as int, w as int, h as int),
        ensures
            r == in_support_spec(self@, x as int, y as int, w as int, h as int),
    {
        match self.check_tile_type(x, y, w, h, TileCollision::Support) {
            Some(ret) => ret,
            None => false,
        }
    }

    /// Whether the rectangle one pixel below is in a Support tile.
    pub fn on_support(&self, x: i32, y: i32, w: i32, h: i32) -> (r: bool)
        requires
            self@.wf(),
            rect_ok(x as int, y as int + 1, w as int, h as int),
        ensures
            r == on_support_spec(self@, x as int, y as int, w as int, h as int),
    {
        self.in_support(x, y + 1, w, h)
    }
}

/// Whether a one-pixel vertical step from `y` toward `y + dy` is rejected:
/// the destination collides, or — falling without `descend` — it newly
/// enters a Support tile (landing on a platform).
pub open spec fn vstep_blocked(
    v: WorldView,
    x: int,
    y: int,
    w: int,
    h: int,
    dy: int,
    descend: bool,
    sis: bool,
) -> bool {
    ||| colliding_spec(v, x, y + dy, w, h)
    ||| (!descend && dy == 1 && in_support_spec(v, x, y + dy, w, h) && !sis)
}

/// Final `y` of up to `rem` unit steps of the vertical sweep.
pub open spec fn vert_from(
    v: WorldView,
    x: int,
    y: int,
    w: int,
    h: int,
    dy: int,
    rem: nat,
    descend: bool,
    sis: bool,
) -> int
    decreases rem,
{
    if rem == 0 {
        y
    } else if vstep_blocked(v, x, y, w, h, dy, descend, sis) {
        y
    } else {
        vert_from(v, x, y + dy, w, h, dy, (rem - 1) as nat, descend, sis)
    }
}

/// Whether the ledge-walk assist fires here: the actor started on firm
/// ground, has none at the current position, and either wants to descend or
/// is not held by a Support tile below.
pub open spec fn nudge_now(
    v: WorldView,
    x: int,
    y: int,
    w: int,
    h: int,
    sog: bool,
    descend: bool,
) -> bool {
    !on_ground_spec(v, x, y, w, h) && sog && (descend || !on_support_spec(v, x, y, w, h))
}

/// State after up to `rem` unit steps of the horizontal sweep: position and
/// whether the one-time downward nudge has been applied.
pub open spec fn horiz_from(
    v: WorldView,
    x: int,
    y: int,
    w: int,
    h: int,
    dx: int,
    rem: nat,
    sog: bool,
    descend: bool,
    hack: bool,
) -> (int, int, bool)
    decreases rem,
{
    if rem == 0 {
        (x, y, hack)
    } else {
        let nudged = !hack && nudge_now(v, x, y, w, h, sog, descend);
        let y1 = if nudged {
            y + 1
        } else {
            y
        };
        let hack1 = hack || nudged;
        if colliding_spec(v, x + dx, y1, w, h) {
            (x, y1, hack1)
        } else {
            horiz_from(v, x + dx, y1, w, h, dx, (rem - 1) as nat, sog, descend, hack1)
        }
    }
}

/// Position and nudge flag of the full sweep, before the nudge is undone.
pub open spec fn move_full(
    v: WorldView,
    x: int,
    y: int,
    w: int,
    h: int,
    vx: int,
    vy: int,
    descend: bool,
) -> (int, int, bool) {
    let sis = in_support_spec(v, x, y, w, h);
    let sog = on_ground_spec(v, x, y, w, h);
    let y0 = if vy != 0 {
        vert_from(v, x, y, w, h, if vy > 0 { 1int } else { -1int }, iabs(vy) as nat, descend, sis)
    } else {
        y
    };
    if vx != 0 {
        horiz_from(
            v,
            x,
            y0,
            w,
            h,
            if vx > 0 { 1int } else { -1int },
            iabs(vx) as nat,
            sog,
            descend,
            false,
        )
    } else {
        (x, y0, false)
    }
}

/// What `checked_move` returns.
pub open spec fn move_spec(
    v: WorldView,
    x: int,
    y: int,
    w: int,
    h: int,
    vx: int,
    vy: int,
    descend: bool,
) -> (int, int) {
    let (x1, y1, hack) = move_full(v, x, y, w, h, vx, vy, descend);
    (x1, if hack { y1 - 1 } else { y1 })
}

/// Whether the ledge-walk nudge fired during this move.
pub open spec fn move_nudged(
    v: WorldView,
    x: int,
    y: int,
    w: int,
    h: int,
    vx: int,
    vy: int,
    descend: bool,
) -> bool {
    move_full(v, x, y, w, h, vx, vy, descend).2
}

impl World {
    /// Swept unit-step movement: applies up to `|vy|` vertical then `|vx|`
    /// horizontal one-pixel steps, stopping each axis at the first rejected
    /// step, with a one-time undone downward nudge that lets an actor walk
    /// off a ledge smoothly.
    pub fn checked_move(
        &self,
        start_x: i32,
        start_y: i32,
        w: i32,
        h: i32,
        vx: i32,
        vy: i32,
        descend: bool,
    ) -> (r: (i32, i32))
        requires
            self@.wf(),
            -COORD_LIMIT <= start_x <= COORD_LIMIT,
            -COORD_LIMIT <= start_y <= COORD_LIMIT,
            0 <= w <= SIZE_LIMIT,
            0 <= h <= SIZE_LIMIT,
            -VEL_LIMIT <= vx <= VEL_LIMIT,
            -VEL_LIMIT <= vy <= VEL_LIMIT,
        ensures
            (r.0 as int, r.1 as int) == move_spec(
                self@,
                start_x as int,
                start_y as int,
                w as int,
                h as int,
                vx as int,
                vy as int,
                descend,
            ),
    {
        let started_in_support = self.in_support(start_x, start_y, w, h);
        let started_on_ground = self.on_ground(start_x, start_y, w, h);

        let mut x = start_x;
        let mut y = start_y;

        if vy != 0 {
            let dy: i32 = if vy > 0 {
                1
            } else {
                -1
            };
            let steps: i32 = if vy > 0 {
                vy
            } else {
                -vy
            };
            let mut i: i32 = 0;
            while i < steps
                invariant_except_break
                    self@.wf(),
                    0 <= steps <= VEL_LIMIT,
                    dy == 1 || dy == -1,
                    -COORD_LIMIT <= start_x <= COORD_LIMIT,
                    -COORD_LIMIT <= start_y <= COORD_LIMIT,
                    0 <= w <= SIZE_LIMIT,
                    0 <= h <= SIZE_LIMIT,
                    vert_from(
                        self@,
                        start_x as int,
                        start_y as int,
                        w as int,
                        h as int,
                        dy as int,
                        steps as nat,
                        descend,
                        started_in_support,
                    ) == vert_from(
                        self@,
                        x as int,
                        y as int,
                        w as int,
                        h as int,
                        dy as int,
                        (steps - i) as nat,
                        descend,
                        started_in_support,
                    ),
                invariant
                    0 <= i <= steps,
                    x == start_x,
                    start_y - i <= y <= start_y + i,
                ensures
                    y as int == vert_from(
                        self@,
                        start_x as int,
                        start_y as int,
                        w as int,
                        h as int,
                        dy as int,
                        steps as nat,
                        descend,
                        started_in_support,
                    ),
                decreases steps - i,
            {
                if self.colliding(x, y + dy, w, h) {
                    break ;
                }
                if !descend && dy > 0 && self.in_support(x, y + dy, w, h) && !started_in_support {
                    break ;
                }
                y += dy;
                i += 1;
            }
        }

        let ghost y_mid = y as int;
        let mut hack_fall = false;

        if vx != 0 {
            let dx: i32 = if vx > 0 {
                1
            } else {
                -1
            };
            let steps: i32 = if vx > 0 {
                vx
            } else {
                -vx
            };
            let mut i: i32 = 0;
            while i < steps
                invariant_except_break
                    self@.wf(),
                    0 <= steps <= VEL_LIMIT,
                    dx == 1 || dx == -1,
                    -COORD_LIMIT <= start_x <= COORD_LIMIT,
                    -COORD_LIMIT - VEL_LIMIT <= y_mid <= COORD_LIMIT + VEL_LIMIT,
                    0 <= w <= SIZE_LIMIT,
                    0 <= h <= SIZE_LIMIT,
                    horiz_from(
                        self@,
                        start_x as int,
                        y_mid,
                        w as int,
                        h as int,
                        dx as int,
                        steps as nat,
                        started_on_ground,
                        descend,
                        false,
                    ) == horiz_from(
                        self@,
                        x as int,
                        y as int,
                        w as int,
                        h as int,
                        dx as int,
                        (steps - i) as nat,
                        started_on_ground,
                        descend,
                        hack_fall,
                    ),
                invariant
                    0 <= i <= steps,
                    start_x - i <= x <= start_x + i,
                    hack_fall ==> y == y_mid + 1,
                    !hack_fall ==> y == y_mid,
                ensures
                    (x as int, y as int, hack_fall) == horiz_from(
                        self@,
                        start_x as int,
                        y_mid,
                        w as int,
                        h as int,
                        dx as int,
                        steps as nat,
                        started_on_ground,
                        descend,
                        false,
                    ),
                decreases steps - i,
            {
                if !hack_fall && !self.on_ground(x, y, w, h) && started_on_ground && (descend
                    || !self.on_support(x, y, w, h)) {
                    hack_fall = true;
                    y += 1;
                }
                if self.colliding(x + dx, y, w, h) {
                    break ;
                }
                x += dx;
                i += 1;
            }
        }

        if hack_fall {
            y -= 1;
        }
        (x, y)
    }
}

proof fn lemma_vert_within(
    v: WorldView,
    x: int,
    y: int,
    w: int,
    h: int,
    dy: int,
    rem: nat,
    descend: bool,
    sis: bool,
)
    requires
        dy == 1 || dy == -1,
    ensures
        iabs(vert_from(v, x, y, w, h, dy, rem, descend, sis) - y) <= rem,
    decreases rem,
{
    if rem > 0 && !vstep_blocked(v, x, y, w, h, dy, descend, sis) {
        lemma_vert_within(v, x, y + dy, w, h, dy, (rem - 1) as nat, descend, sis);
    }
}

proof fn lemma_horiz_within(
    v: WorldView,
    x: int,
    y: int,
    w: int,
    h: int,
    dx: int,
    rem: nat,
    sog: bool,
    descend: bool,
    hack: bool,
)
    requires
        dx == 1 || dx == -1,
    ensures
        ({
            let (x1, y1, hk) = horiz_from(v, x, y, w, h, dx, rem, sog, descend, hack);
            &&& iabs(x1 - x) <= rem
            &&& (hack ==> hk && y1 == y)
            &&& (!hack && hk ==> y1 == y + 1)
            &&& (!hk ==> !hack && y1 == y)
        }),
    decreases rem,
{
    if rem > 0 {
        let nudged = !hack && nudge_now(v, x, y, w, h, sog, descend);
        let y1 = if nudged {
            y + 1
        } else {
            y
        };
        let hack1 = hack || nudged;
        if !colliding_spec(v, x + dx, y1, w, h) {
            lemma_horiz_within(v, x + dx, y1, w, h, dx, (rem - 1) as nat, sog, descend, hack1);
        }
    }
}

/// Movement containment, the velocity half: the signed displacement that
/// `checked_move` yields never exceeds the requested velocity's magnitude on
/// either axis.
pub proof fn lemma_checked_move_within_velocity(
    v: WorldView,
    x: int,
    y: int,
    w: int,
    h: int,
    vx: int,
    vy: int,
    descend: bool,
)
    ensures
        ({
            let (rx, ry) = move_spec(v, x, y, w, h, vx, vy, descend);
            iabs(rx - x) <= iabs(vx) && iabs(ry - y) <= iabs(vy)
        }),
{
    let sis = in_support_spec(v, x, y, w, h);
    let sog = on_ground_spec(v, x, y, w, h);
    let y0 = if vy != 0 {
        vert_from(v, x, y, w, h, if vy > 0 { 1int } else { -1int }, iabs(vy) as nat, descend, sis)
    } else {
        y
    };
    if vy != 0 {
        lemma_vert_within(
            v,
            x,
            y,
            w,
            h,
            if vy > 0 { 1int } else { -1int },
            iabs(vy) as nat,
            descend,
            sis,
        );
    }
    if vx != 0 {
        lemma_horiz_within(
            v,
            x,
            y0,
            w,
            h,
            if vx > 0 { 1int } else { -1int },
            iabs(vx) as nat,
            sog,
            descend,
            false,
        );
    }
}

proof fn lemma_vert_signed(
    v: WorldView,
    x: int,
    y: int,
    w: int,
    h: int,
    dy: int,
    rem: nat,
    descend: bool,
    sis: bool,
)
    requires
        dy == 1 || dy == -1,
    ensures
        dy == 1 ==> y <= vert_from(v, x, y, w, h, dy, rem, descend, sis) <= y + rem,
        dy == -1 ==> y - rem <= vert_from(v, x, y, w, h, dy, rem, descend, sis) <= y,
    decreases rem,
{
    if rem > 0 && !vstep_blocked(v, x, y, w, h, dy, descend, sis) {
        lemma_vert_signed(v, x, y + dy, w, h, dy, (rem - 1) as nat, descend, sis);
    }
}

proof fn lemma_horiz_signed(
    v: WorldView,
    x: int,
    y: int,
    w: int,
    h: int,
    dx: int,
    rem: nat,
    sog: bool,
    descend: bool,
    hack: bool,
)
    requires
        dx == 1 || dx == -1,
    ensures
        dx == 1 ==> x <= horiz_from(v, x, y, w, h, dx, rem, sog, descend, hack).0 <= x + rem,
        dx == -1 ==> x - rem <= horiz_from(v, x, y, w, h, dx, rem, sog, descend, hack).0 <= x,
    decreases rem,
{
    if rem > 0 {
        let nudged = !hack && nudge_now(v, x, y, w, h, sog, descend);
        let y1 = if nudged {
            y + 1
        } else {
            y
        };
        let hack1 = hack || nudged;
        if !colliding_spec(v, x + dx, y1, w, h) {
            lemma_horiz_signed(v, x + dx, y1, w, h, dx, (rem - 1) as nat, sog, descend, hack1);
        }
    }
}

/// Movement containment, the direction half: each axis of the result moves
/// only toward the requested velocity's sign — the signed displacement lies
/// between zero and the requested velocity on both axes.
pub proof fn lemma_checked_move_signed_direction(
    v: WorldView,
    x: int,
    y: int,
    w: int,
    h: int,
    vx: int,
    vy: int,
    descend: bool,
)
    ensures
        ({
            let (rx, ry) = move_spec(v, x, y, w, h, vx, vy, descend);
            &&& vx >= 0 ==> 0 <= rx - x <= vx
            &&& vx <= 0 ==> vx <= rx - x <= 0
            &&& vy >= 0 ==> 0 <= ry - y <= vy
            &&& vy <= 0 ==> vy <= ry - y <= 0
        }),
{
    let sis = in_support_spec(v, x, y, w, h);
    let sog = on_ground_spec(v, x, y, w, h);
    let y0 = if vy != 0 {
        vert_from(v, x, y, w, h, if vy > 0 { 1int } else { -1int }, iabs(vy) as nat, descend, sis)
    } else {
        y
    };
    if vy != 0 {
        lemma_vert_signed(
            v,
            x,
            y,
            w,
            h,
            if vy > 0 { 1int } else { -1int },
            iabs(vy) as nat,
            descend,
            sis,
        );
    }
    if vx != 0 {
        lemma_horiz_signed(
            v,
            x,
            y0,
            w,
            h,
            if vx > 0 { 1int } else { -1int },
            iabs(vx) as nat,
            sog,
            descend,
            false,
        );
        // Whether or not the ledge-walk nudge fired, undoing it returns the
        // vertical sweep's row, so the vertical axis is unaffected by the
        // horizontal phase.
        lemma_horiz_within(
            v,
            x,
            y0,
            w,
            h,
            if vx > 0 { 1int } else { -1int },
            iabs(vx) as nat,
            sog,
            descend,
            false,
        );
    }
}

proof fn lemma_vert_clear(
    v: WorldView,
    x: int,
    y: int,
    w: int,
    h: int,
    dy: int,
    rem: nat,
    descend: bool,
    sis: bool,
)
    requires
        !colliding_spec(v, x, y, w, h),
    ensures
        !colliding_spec(v, x, vert_from(v, x, y, w, h, dy, rem, descend, sis), w, h),
    decreases rem,
{
    if rem > 0 && !vstep_blocked(v, x, y, w, h, dy, descend, sis) {
        lemma_vert_clear(v, x, y + dy, w, h, dy, (rem - 1) as nat, descend, sis);
    }
}

proof fn lemma_horiz_clear(
    v: WorldView,
    x: int,
    y: int,
    w: int,
    h: int,
    dx: int,
    rem: nat,
    sog: bool,
    descend: bool,
    hack: bool,
)
    requires
        !colliding_spec(v, x, y, w, h),
    ensures
        ({
            let (x1, y1, hk) = horiz_from(v, x, y, w, h, dx, rem, sog, descend, hack);
            !colliding_spec(v, x1, y1, w, h)
        }),
    decreases rem,
{
    if rem > 0 {
        let nudged = !hack && nudge_now(v, x, y, w, h, sog, descend);
        let y1 = if nudged {
            y + 1
        } else {
            y
        };
        let hack1 = hack || nudged;
        if !colliding_spec(v, x + dx, y1, w, h) {
            lemma_horiz_clear(v, x + dx, y1, w, h, dx, (rem - 1) as nat, sog, descend, hack1);
        }
    }
}

/// Every position the sweep itself accepts is collision-free: started from
/// a non-colliding rectangle, the swept position before the nudge is undone
/// never collides, whether or not the nudge fired.
pub proof fn lemma_checked_move_swept_clear(
    v: WorldView,
    x: int,
    y: int,
    w: int,
    h: int,
    vx: int,
    vy: int,
    descend: bool,
)
    requires
        !colliding_spec(v, x, y, w, h),
    ensures
        ({
            let (x1, y1, hack) = move_full(v, x, y, w, h, vx, vy, descend);
            !colliding_spec(v, x1, y1, w, h)
        }),
{
    let sis = in_support_spec(v, x, y, w, h);
    let sog = on_ground_spec(v, x, y, w, h);
    let y0 = if vy != 0 {
        vert_from(v, x, y, w, h, if vy > 0 { 1int } else { -1int }, iabs(vy) as nat, descend, sis)
    } else {
        y
    };
    if vy != 0 {
        lemma_vert_clear(
            v,
            x,
            y,
            w,
            h,
            if vy > 0 { 1int } else { -1int },
            iabs(vy) as nat,
            descend,
            sis,
        );
    }
    if vx != 0 {
        lemma_horiz_clear(
            v,
            x,
            y0,
            w,
            h,
            if vx > 0 { 1int } else { -1int },
            iabs(vx) as nat,
            sog,
            descend,
            false,
        );
    }
}

/// Movement containment, the collision half: started from a non-colliding
/// rectangle, `checked_move` never lands on a colliding one, as long as the
/// ledge-walk nudge did not fire. (Undoing the nudge raises the rectangle by
/// one pixel into a row of tiles the sweep never tested, so that one case is
/// excluded here.)
pub proof fn lemma_checked_move_no_collision(
    v: WorldView,
    x: int,
    y: int,
    w: int,
    h: int,
    vx: int,
    vy: int,
    descend: bool,
)
    requires
        !colliding_spec(v, x, y, w, h),
        !move_nudged(v, x, y, w, h, vx, vy, descend),
    ensures
        ({
            let (rx, ry) = move_spec(v, x, y, w, h, vx, vy, descend);
            !colliding_spec(v, rx, ry, w, h)
        }),
{
    let sis = in_support_spec(v, x, y, w, h);
    let sog = on_ground_spec(v, x, y, w, h);
    let y0 = if vy != 0 {
        vert_from(v, x, y, w, h, if vy > 0 { 1int } else { -1int }, iabs(vy) as nat, descend, sis)
    } else {
        y
    };
    if vy != 0 {
        lemma_vert_clear(
            v,
            x,
            y,
            w,
            h,
            if vy > 0 { 1int } else { -1int },
            iabs(vy) as nat,
            descend,
            sis,
        );
    }
    if vx != 0 {
        lemma_horiz_clear(
            v,
            x,
            y0,
            w,
            h,
            if vx > 0 { 1int } else { -1int },
            iabs(vx) as nat,
            sog,
            descend,
            false,
        );
    }
}

} // verus!
