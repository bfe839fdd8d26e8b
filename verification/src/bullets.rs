//! Volley ledger, projectile buffers, and the per-frame collision driver.
//!
//! Bullets live in three parallel buffers (position, direction, rotation)
//! addressed by one flat index.  Each fired volley owns a contiguous index
//! range and a remaining lifetime; volleys expire oldest-first, so expired
//! bullets always form a prefix and are reclaimed by one bulk compaction.

use vstd::prelude::*;

use crate::aabb::Aabb;
use crate::capsule::{max_collision_distance, Capsule};
use crate::geom::{
    distance_between_line_segments, lemma_mul_bound, rat_le_sq, seg_seg_dist_sq, v3_bounded, Vec3,
    DELTA_CAP, V3,
};
use crate::quat::Quat;

verus! {

/// Fixed-point scale of direction vectors: a unit direction has components
/// in `[-DIR_SCALE, DIR_SCALE]`.
pub const DIR_SCALE: i64 = 1024;

/// Largest coordinate magnitude a position may reach; leaves room for the
/// capsule half-heights inside the geometry domain `COORD_LIMIT`.
pub const POS_LIMIT: i64 = 7168;

/// Enemy proxy: the driver reads position and facing direction and may
/// clear `is_alive`; it never moves enemies or changes the list's length.
#[derive(Clone, Copy, Debug)]
pub struct Enemy {
    pub position: Vec3,
    pub direction: Vec3,
    pub is_alive: bool,
}

/// An enemy the driver can test exactly: position inside the playing field,
/// facing direction at most one unit long.
pub open spec fn enemy_wf(e: Enemy) -> bool {
    &&& v3_bounded(e.position@, POS_LIMIT as int)
    &&& v3_bounded(e.direction@, DIR_SCALE as int)
}

/// Read-only configuration constants of the projectile subsystem.
#[derive(Clone, Copy, Debug)]
pub struct BulletConfig {
    /// Position units a bullet travels per time tick.
    pub speed: i64,
    /// Ticks a volley lives after being fired.
    pub lifetime: i64,
    /// Cap on concurrently live volleys; spawns beyond it are rejected.
    pub max_bullet_groups: usize,
    /// Collision shape of a bullet.
    pub bullet_collider: Capsule,
    /// Collision shape of an enemy.
    pub enemy_collider: Capsule,
}

impl BulletConfig {
    /// Bounds under which every computation of the driver is exact: a
    /// bullet can never leave the playing field while it lives.
    pub open spec fn wf(&self) -> bool {
        &&& 0 <= self.speed <= 0x10000
        &&& 1 <= self.lifetime <= 0x10000
        &&& self.speed * self.lifetime <= POS_LIMIT as int
        &&& 1 <= self.max_bullet_groups <= 4096
        &&& self.bullet_collider.wf()
        &&& self.enemy_collider.wf()
    }
}

/// One fired burst: its contiguous index range in the shared buffers and
/// its remaining lifetime in ticks.
#[derive(Clone, Copy, Debug)]
pub struct BulletGroup {
    pub start_index: usize,
    pub group_size: usize,
    pub time_to_live: i64,
}

impl BulletGroup {
    pub fn new(start_index: usize, group_size: usize, time_to_live: i64) -> (g: BulletGroup)
        ensures
            g.start_index == start_index,
            g.group_size == group_size,
            g.time_to_live == time_to_live,
    {
        BulletGroup { start_index, group_size, time_to_live }
    }
}

/// Truncating division, the semantics of `/` on signed integers.
pub open spec fn tdiv(a: int, b: int) -> int {
    if a >= 0 {
        a / b
    } else {
        -((-a) / b)
    }
}

/// One integration step: each coordinate moves by the direction component
/// times the travel magnitude, divided back by the direction scale.
pub open spec fn moved_v3(p: V3, d: V3, mag: int) -> V3 {
    V3 {
        x: p.x + tdiv(d.x * mag, DIR_SCALE as int),
        y: p.y + tdiv(d.y * mag, DIR_SCALE as int),
        z: p.z + tdiv(d.z * mag, DIR_SCALE as int),
    }
}

/// The half-height extent of a capsule's axis along direction `d`.
pub open spec fn axis_offset(d: V3, half_h: int) -> V3 {
    V3 {
        x: tdiv(d.x * half_h, DIR_SCALE as int),
        y: tdiv(d.y * half_h, DIR_SCALE as int),
        z: tdiv(d.z * half_h, DIR_SCALE as int),
    }
}

pub open spec fn v3_add(a: V3, b: V3) -> V3 {
    V3 { x: a.x + b.x, y: a.y + b.y, z: a.z + b.z }
}

pub open spec fn v3_sub2(a: V3, b: V3) -> V3 {
    V3 { x: a.x - b.x, y: a.y - b.y, z: a.z - b.z }
}

/// The collision predicate the driver decides: the exact distance between
/// the bullet's body segment and the enemy's body segment is at most the
/// sum of the two radii.
pub open spec fn hits(bp: V3, bd: V3, e: Enemy, bc: Capsule, ec: Capsule) -> bool {
    let ob = axis_offset(bd, bc.half_height());
    let oe = axis_offset(e.direction@, ec.half_height());
    rat_le_sq(
        seg_seg_dist_sq(
            v3_sub2(bp, ob),
            v3_add(bp, ob),
            v3_sub2(e.position@, oe),
            v3_add(e.position@, oe),
        ),
        bc.radius + ec.radius,
    )
}

/// The projectile subsystem: three parallel buffers sharing one flat index,
/// the volley ledger, and the configuration.
pub struct BulletSystem {
    pub bullet_positions: Vec<Vec3>,
    pub bullet_rotations: Vec<Quat>,
    pub bullet_directions: Vec<Vec3>,
    pub bullet_groups: Vec<BulletGroup>,
    pub config: BulletConfig,
}

impl BulletSystem {
    /// Total bullets owned by the ledger: the end of the last group's range.
    pub open spec fn total_bullets(&self) -> int {
        if self.bullet_groups@.len() == 0 {
            0
        } else {
            self.bullet_groups@.last().start_index + self.bullet_groups@.last().group_size
        }
    }

    /// Volleys sit in spawn order, each beginning exactly where the one
    /// before it ends, the first at index zero: the buffers are never
    /// sparse.
    pub open spec fn groups_contiguous(&self) -> bool {
        &&& (self.bullet_groups@.len() > 0 ==> self.bullet_groups@[0].start_index == 0)
        &&& forall|i: int|
            0 <= i && i + 1 < self.bullet_groups@.len() ==> (#[trigger] self.bullet_groups@[i
                + 1].start_index) == self.bullet_groups@[i].start_index
                + self.bullet_groups@[i].group_size
    }

    /// Remaining lifetime left to spend, clipped at zero.
    pub open spec fn ttl_left(g: BulletGroup) -> int {
        if g.time_to_live >= 0 {
            g.time_to_live as int
        } else {
            0
        }
    }

    /// The system invariant.  Beyond contiguity it records: lifetimes never
    /// exceed the configured lifetime and grow with spawn order (the volley
    /// list is FIFO); group sizes are bounded; every direction is at most
    /// one unit long; and every bullet has enough room left inside the
    /// playing field to travel for its volley's remaining lifetime.
    pub open spec fn wf(&self) -> bool {
        &&& self.config.wf()
        &&& self.groups_contiguous()
        &&& self.bullet_positions@.len() == self.total_bullets()
        &&& self.bullet_directions@.len() == self.total_bullets()
        &&& self.bullet_rotations@.len() == self.total_bullets()
        &&& self.bullet_groups@.len() <= self.config.max_bullet_groups
        &&& forall|i: int|
            0 <= i < self.bullet_groups@.len() ==> (#[trigger] self.bullet_groups@[i]).group_size
                <= 0x10000
        &&& forall|i: int|
            0 <= i < self.bullet_groups@.len() ==> -0x10000 <= (
            #[trigger] self.bullet_groups@[i]).time_to_live <= self.config.lifetime
        &&& forall|i: int, j: int|
            #![trigger self.bullet_groups@[i], self.bullet_groups@[j]]
            0 <= i <= j < self.bullet_groups@.len() ==> self.bullet_groups@[i].time_to_live
                <= self.bullet_groups@[j].time_to_live
        &&& forall|j: int|
            0 <= j < self.bullet_directions@.len() ==> v3_bounded(
                (#[trigger] self.bullet_directions@[j])@,
                DIR_SCALE as int,
            )
        &&& forall|i: int, j: int|
            #![trigger self.bullet_groups@[i], self.bullet_positions@[j]]
            0 <= i < self.bullet_groups@.len() && self.bullet_groups@[i].start_index <= j
                < self.bullet_groups@[i].start_index + self.bullet_groups@[i].group_size
                ==> v3_bounded(
                self.bullet_positions@[j]@,
                POS_LIMIT - Self::ttl_left(self.bullet_groups@[i]) * self.config.speed,
            )
    }

    /// An empty system with the given configuration.
    pub fn new(config: BulletConfig) -> (s: BulletSystem)
        requires
            config.wf(),
        ensures
            s.wf(),
            s.config == config,
            s.bullet_groups@.len() == 0,
            s.bullet_positions@.len() == 0,
            s.bullet_directions@.len() == 0,
            s.bullet_rotations@.len() == 0,
    {
        BulletSystem {
            bullet_positions: Vec::new(),
            bullet_rotations: Vec::new(),
            bullet_directions: Vec::new(),
            bullet_groups: Vec::new(),
            config,
        }
    }

    /// Appends one volley of bullets, all starting at `spawn_point`, with
    /// the given per-bullet directions and orientations and a fresh
    /// lifetime.  Fails, changing nothing, exactly when the configured
    /// maximum number of concurrently live volleys is already reached: the
    /// subsystem's sole backpressure signal.
    pub fn create_bullets(
        &mut self,
        spawn_point: Vec3,
        directions: &Vec<Vec3>,
        rotations: &Vec<Quat>,
    ) -> (spawned: bool)
        requires
            old(self).wf(),
            directions@.len() == rotations@.len(),
            0 < directions@.len() <= 0x10000,
            v3_bounded(
                spawn_point@,
                POS_LIMIT - old(self).config.lifetime * old(self).config.speed,
            ),
            forall|j: int|
                0 <= j < directions@.len() ==> v3_bounded(
                    (#[trigger] directions@[j])@,
                    DIR_SCALE as int,
                ),
        ensures
            final(self).wf(),
            final(self).config == old(self).config,
            spawned == (old(self).bullet_groups@.len() < old(self).config.max_bullet_groups),
            !spawned ==> *final(self) == *old(self),
            spawned ==> {
                &&& final(self).bullet_groups@ == old(self).bullet_groups@.push(
                    BulletGroup {
                        start_index: old(self).total_bullets() as usize,
                        group_size: directions@.len() as usize,
                        time_to_live: old(self).config.lifetime,
                    },
                )
                &&& final(self).bullet_positions@ == old(self).bullet_positions@ + Seq::new(
                    directions@.len(),
                    |k: int| spawn_point,
                )
                &&& final(self).bullet_directions@ == old(self).bullet_directions@ + directions@
                &&& final(self).bullet_rotations@ == old(self).bullet_rotations@ + rotations@
            },
    {
        if self.bullet_groups.len() >= self.config.max_bullet_groups {
            return false;
        }
        let start_index = self.bullet_positions.len();
        let n = directions.len();
        let group = BulletGroup {
            start_index,
            group_size: n,
            time_to_live: self.config.lifetime,
        };
        let mut k: usize = 0;
        while k < n
            invariant
                0 <= k <= n,
                n == directions@.len(),
                n == rotations@.len(),
                self.bullet_positions@ == old(self).bullet_positions@ + Seq::new(
                    k as nat,
                    |t: int| spawn_point,
                ),
                self.bullet_directions@ == old(self).bullet_directions@ + directions@.subrange(
                    0,
                    k as int,
                ),
                self.bullet_rotations@ == old(self).bullet_rotations@ + rotations@.subrange(
                    0,
                    k as int,
                ),
                self.bullet_groups@ == old(self).bullet_groups@,
                self.config == old(self).config,
                start_index == old(self).total_bullets(),
                n <= 0x10000,
                old(self).wf(),
            decreases n - k,
        {
            self.bullet_positions.push(spawn_point);
            self.bullet_directions.push(directions[k]);
            self.bullet_rotations.push(rotations[k]);
            k = k + 1;
            proof {
                assert(self.bullet_directions@.subrange(0, self.bullet_directions@.len() as int)
                    =~= self.bullet_directions@);
                assert(directions@.subrange(0, k as int) =~= directions@.subrange(
                    0,
                    (k - 1) as int,
                ).push(directions@[k - 1]));
                assert(rotations@.subrange(0, k as int) =~= rotations@.subrange(
                    0,
                    (k - 1) as int,
                ).push(rotations@[k - 1]));
                assert(self.bullet_positions@ =~= old(self).bullet_positions@ + Seq::new(
                    k as nat,
                    |t: int| spawn_point,
                ));
                assert(self.bullet_directions@ =~= old(self).bullet_directions@
                    + directions@.subrange(0, k as int));
                assert(self.bullet_rotations@ =~= old(self).bullet_rotations@
                    + rotations@.subrange(0, k as int));
            }
        }
        self.bullet_groups.push(group);
        proof {
            assert(directions@.subrange(0, n as int) =~= directions@);
            assert(rotations@.subrange(0, n as int) =~= rotations@);
            lemma_total_bullets_bound(*old(self));
            let pre_len = old(self).bullet_groups@.len();
            assert(pre_len * 0x10000 <= 4096 * 0x10000) by (nonlinear_arith)
                requires
                    pre_len <= 4096,
            ;
            lemma_create_preserves_wf(*old(self), *self, spawn_point, directions@, group);
        }
        true
    }
}

/// The FIFO shape of a well-formed system, spelled out: volley index ranges
/// are contiguous, non-overlapping and strictly increasing, starting at
/// zero, and together they cover the buffers exactly.  Every constructor
/// and every frame update of `BulletSystem` ensures `wf`, so this holds at
/// all times, for any sequence of spawns and frame advances.
pub proof fn lemma_volley_ranges_fifo(s: BulletSystem)
    requires
        s.wf(),
    ensures
        s.bullet_groups@.len() > 0 ==> s.bullet_groups@[0].start_index == 0,
        forall|i: int|
            0 <= i && i + 1 < s.bullet_groups@.len() ==> (#[trigger] s.bullet_groups@[i
                + 1].start_index) == s.bullet_groups@[i].start_index
                + s.bullet_groups@[i].group_size,
        s.bullet_positions@.len() == s.total_bullets(),
        s.bullet_directions@.len() == s.total_bullets(),
        s.bullet_rotations@.len() == s.total_bullets(),
        forall|i: int, j: int|
            #![trigger s.bullet_groups@[i], s.bullet_groups@[j]]
            0 <= i < j < s.bullet_groups@.len() ==> s.bullet_groups@[i].start_index
                + s.bullet_groups@[i].group_size <= s.bullet_groups@[j].start_index,
{
    assert forall|i: int, j: int|
        #![trigger s.bullet_groups@[i], s.bullet_groups@[j]]
        0 <= i < j < s.bullet_groups@.len() implies s.bullet_groups@[i].start_index
        + s.bullet_groups@[i].group_size <= s.bullet_groups@[j].start_index by {
        lemma_range_le(s, i, j);
    }
}

/// Some bullet in `[lo, hi)`, after moving by `mag`, hits the enemy.
pub open spec fn group_hit(
    pos0: Seq<Vec3>,
    dirs: Seq<Vec3>,
    lo: int,
    hi: int,
    mag: int,
    e: Enemy,
    bc: Capsule,
    ec: Capsule,
) -> bool {
    exists|j: int|
        lo <= j < hi && hits(moved_v3((#[trigger] pos0[j])@, dirs[j]@, mag), dirs[j]@, e, bc, ec)
}

/// Some bullet of one of the first `upto` volleys, still live after this
/// frame's decrement, hits the enemy at its post-integration position.
pub open spec fn killed_by_volleys_upto(
    sys: BulletSystem,
    delta: int,
    e: Enemy,
    upto: int,
) -> bool {
    exists|i: int|
        0 <= i < upto && i < sys.bullet_groups@.len() && (#[trigger] sys.bullet_groups@[i]).time_to_live
            - delta > 0 && group_hit(
            sys.bullet_positions@,
            sys.bullet_directions@,
            sys.bullet_groups@[i].start_index as int,
            sys.bullet_groups@[i].start_index + sys.bullet_groups@[i].group_size,
            delta * sys.config.speed,
            e,
            sys.config.bullet_collider,
            sys.config.enemy_collider,
        )
}

/// Some bullet of a volley still live after this frame's decrement hits the
/// enemy at its post-integration position.
pub open spec fn killed_by_volleys(sys: BulletSystem, delta: int, e: Enemy) -> bool {
    killed_by_volleys_upto(sys, delta, e, sys.bullet_groups@.len() as int)
}

/// `group_hit` only reads the buffers inside `[lo, hi)`.
proof fn lemma_group_hit_agree(
    pos0: Seq<Vec3>,
    pos1: Seq<Vec3>,
    dirs: Seq<Vec3>,
    lo: int,
    hi: int,
    mag: int,
    e: Enemy,
    bc: Capsule,
    ec: Capsule,
)
    requires
        0 <= lo,
        hi <= pos0.len(),
        hi <= pos1.len(),
        forall|j: int| lo <= j < hi ==> #[trigger] pos0[j] == pos1[j],
        group_hit(pos0, dirs, lo, hi, mag, e, bc, ec),
    ensures
        group_hit(pos1, dirs, lo, hi, mag, e, bc, ec),
{
    let j = choose|j: int|
        lo <= j < hi && hits(moved_v3((#[trigger] pos0[j])@, dirs[j]@, mag), dirs[j]@, e, bc, ec);
    assert(pos1[j] == pos0[j]);
    assert(hits(moved_v3(pos1[j]@, dirs[j]@, mag), dirs[j]@, e, bc, ec));
}

/// Positions of the first `k` enemies that went from alive to dead, in
/// enemy order: the impact events of one frame.
pub open spec fn kill_seq_upto(before: Seq<Enemy>, after: Seq<Enemy>, k: int) -> Seq<Vec3>
    decreases k,
{
    if k <= 0 || k > before.len() || k > after.len() {
        Seq::empty()
    } else {
        let rest = kill_seq_upto(before, after, k - 1);
        if before[k - 1].is_alive && !after[k - 1].is_alive {
            rest.push(before[k - 1].position)
        } else {
            rest
        }
    }
}

/// Length of the expired prefix: volleys whose lifetime has run out.
pub open spec fn num_expired(groups: Seq<BulletGroup>) -> int
    decreases groups.len(),
{
    if groups.len() == 0 {
        0
    } else if groups[0].time_to_live > 0 {
        0
    } else {
        1 + num_expired(groups.drop_first())
    }
}

/// One volley with this frame's time already subtracted.
pub open spec fn dec_group(g: BulletGroup, delta: int) -> BulletGroup {
    BulletGroup {
        start_index: g.start_index,
        group_size: g.group_size,
        time_to_live: (g.time_to_live - delta) as i64,
    }
}

/// All volleys with this frame's time already subtracted.
pub open spec fn decrement_groups(groups: Seq<BulletGroup>, delta: int) -> Seq<BulletGroup> {
    groups.map(|i: int, g: BulletGroup| dec_group(g, delta))
}

/// How many bullets the expired volley prefix owns: the next surviving
/// volley's start index, or the whole buffer when every volley expired.
pub open spec fn expired_drop_count(pre: BulletSystem, delta: int) -> int {
    let groups1 = decrement_groups(pre.bullet_groups@, delta);
    let ne = num_expired(groups1);
    if ne == groups1.len() {
        pre.total_bullets()
    } else {
        groups1[ne].start_index as int
    }
}

/// The volley ledger after one frame: lifetimes decremented, the expired
/// prefix dropped, every survivor's start index shifted back by the
/// dropped bullet count.
pub open spec fn surviving_groups(pre: BulletSystem, delta: int) -> Seq<BulletGroup> {
    let groups1 = decrement_groups(pre.bullet_groups@, delta);
    let ne = num_expired(groups1);
    let dropped = expired_drop_count(pre, delta);
    groups1.subrange(ne, groups1.len() as int).map(
        |i: int, g: BulletGroup|
            BulletGroup {
                start_index: (g.start_index - dropped) as usize,
                group_size: g.group_size,
                time_to_live: g.time_to_live,
            },
    )
}

/// With lifetimes sorted in spawn order, a scan that stops at the first
/// live volley counts exactly the expired prefix.
proof fn lemma_num_expired_eq(groups: Seq<BulletGroup>, k: int)
    requires
        0 <= k <= groups.len(),
        forall|i: int| 0 <= i < k ==> (#[trigger] groups[i]).time_to_live <= 0,
        k == groups.len() || groups[k].time_to_live > 0,
    ensures
        num_expired(groups) == k,
    decreases k,
{
    if groups.len() == 0 {
    } else if k == 0 {
    } else {
        assert(groups[0].time_to_live <= 0);
        let rest = groups.drop_first();
        assert forall|i: int| 0 <= i < k - 1 implies (#[trigger] rest[i]).time_to_live <= 0 by {
            assert(rest[i] == groups[i + 1]);
        }
        if k - 1 < rest.len() {
            assert(rest[k - 1] == groups[k]);
        }
        lemma_num_expired_eq(rest, k - 1);
    }
}

/// `|a| <= m * b` gives `|a / b| <= m` for truncating division.
proof fn lemma_tdiv_bound(a: int, b: int, m: int)
    requires
        b >= 1,
        m >= 0,
        -(m * b) <= a <= m * b,
    ensures
        -m <= tdiv(a, b) <= m,
{
    broadcast use vstd::arithmetic::div_mod::lemma_div_pos_is_pos;
    broadcast use vstd::arithmetic::div_mod::lemma_div_is_ordered;
    broadcast use vstd::arithmetic::div_mod::lemma_div_multiples_vanish;

    if a >= 0 {
        assert((b * m) / b == m);
        assert(b * m == m * b) by (nonlinear_arith);
        assert(a / b <= m);
    } else {
        assert((b * m) / b == m);
        assert(b * m == m * b) by (nonlinear_arith);
        assert((-a) / b <= m);
        assert((-a) / b >= 0);
    }
}

/// Moves every bullet in `[bs, be)` along its direction by `delta_mag`,
/// exactly as `moved_v3` says; all other entries are untouched.
fn integrate_range(
    positions: &mut Vec<Vec3>,
    directions: &Vec<Vec3>,
    bs: usize,
    be: usize,
    delta_mag: i64,
    Ghost(headroom): Ghost<int>,
)
    requires
        bs <= be <= old(positions)@.len(),
        directions@.len() == old(positions)@.len(),
        0 <= delta_mag <= 0x100000000,
        headroom >= 0,
        headroom + delta_mag <= POS_LIMIT as int,
        forall|j: int|
            bs <= j < be ==> v3_bounded((#[trigger] old(positions)@[j])@, headroom),
        forall|j: int|
            0 <= j < directions@.len() ==> v3_bounded((#[trigger] directions@[j])@, DIR_SCALE as int),
    ensures
        final(positions)@.len() == old(positions)@.len(),
        forall|j: int|
            bs <= j < be ==> (#[trigger] final(positions)@[j])@ == moved_v3(
                old(positions)@[j]@,
                directions@[j]@,
                delta_mag as int,
            ) && v3_bounded(final(positions)@[j]@, headroom + delta_mag),
        forall|j: int|
            0 <= j < old(positions)@.len() && !(bs <= j < be) ==> final(positions)@[j] == old(
                positions,
            )@[j],
{
    let mut j: usize = bs;
    while j < be
        invariant
            bs <= j <= be <= positions@.len(),
            positions@.len() == old(positions)@.len(),
            directions@.len() == old(positions)@.len(),
            0 <= delta_mag <= 0x100000000,
            headroom >= 0,
            headroom + delta_mag <= POS_LIMIT as int,
            forall|t: int|
                bs <= t < be ==> v3_bounded((#[trigger] old(positions)@[t])@, headroom),
            forall|t: int|
                0 <= t < directions@.len() ==> v3_bounded(
                    (#[trigger] directions@[t])@,
                    DIR_SCALE as int,
                ),
            forall|t: int|
                bs <= t < j ==> (#[trigger] positions@[t])@ == moved_v3(
                    old(positions)@[t]@,
                    directions@[t]@,
                    delta_mag as int,
                ) && v3_bounded(positions@[t]@, headroom + delta_mag),
            forall|t: int|
                0 <= t < positions@.len() && !(bs <= t < j) ==> positions@[t] == old(
                    positions,
                )@[t],
        decreases be - j,
    {
        let p = positions[j];
        let d = directions[j];
        proof {
            lemma_mul_bound(d@.x, delta_mag as int, DIR_SCALE as int, delta_mag as int);
            lemma_mul_bound(d@.y, delta_mag as int, DIR_SCALE as int, delta_mag as int);
            lemma_mul_bound(d@.z, delta_mag as int, DIR_SCALE as int, delta_mag as int);
            assert((delta_mag as int) * (DIR_SCALE as int) == (DIR_SCALE as int) * (
            delta_mag as int)) by (nonlinear_arith);
            lemma_tdiv_bound(d@.x * delta_mag, DIR_SCALE as int, delta_mag as int);
            lemma_tdiv_bound(d@.y * delta_mag, DIR_SCALE as int, delta_mag as int);
            lemma_tdiv_bound(d@.z * delta_mag, DIR_SCALE as int, delta_mag as int);
        }
        let nx: i64 = p.x + (d.x * delta_mag) / DIR_SCALE;
        let ny: i64 = p.y + (d.y * delta_mag) / DIR_SCALE;
        let nz: i64 = p.z + (d.z * delta_mag) / DIR_SCALE;
        positions.set(j, Vec3 { x: nx, y: ny, z: nz });
        j = j + 1;
    }
}

/// Builds the tightest box over the bullets in `[bs, be)`.
fn build_subgroup_aabb(positions: &Vec<Vec3>, bs: usize, be: usize, Ghost(bound): Ghost<int>) -> (bb:
    Aabb)
    requires
        bs <= be <= positions@.len(),
        0 <= bound <= POS_LIMIT as int,
        forall|j: int| bs <= j < be ==> v3_bounded((#[trigger] positions@[j])@, bound),
    ensures
        bb.initialized() == (bs < be),
        forall|j: int|
            bs <= j < be ==> {
                let p = #[trigger] positions@[j];
                &&& bb.x_min <= p.x <= bb.x_max
                &&& bb.y_min <= p.y <= bb.y_max
                &&& bb.z_min <= p.z <= bb.z_max
            },
        bb.initialized() ==> {
            &&& -bound <= bb.x_min && bb.x_max <= bound
            &&& -bound <= bb.y_min && bb.y_max <= bound
            &&& -bound <= bb.z_min && bb.z_max <= bound
        },
{
    let mut bb = Aabb::new();
    let mut j: usize = bs;
    while j < be
        invariant
            bs <= j <= be <= positions@.len(),
            0 <= bound <= POS_LIMIT as int,
            forall|t: int| bs <= t < be ==> v3_bounded((#[trigger] positions@[t])@, bound),
            bb.initialized() == (bs < j),
            forall|t: int|
                bs <= t < j ==> {
                    let p = #[trigger] positions@[t];
                    &&& bb.x_min <= p.x <= bb.x_max
                    &&& bb.y_min <= p.y <= bb.y_max
                    &&& bb.z_min <= p.z <= bb.z_max
                },
            bb.initialized() ==> {
                &&& -bound <= bb.x_min && bb.x_max <= bound
                &&& -bound <= bb.y_min && bb.y_max <= bound
                &&& -bound <= bb.z_min && bb.z_max <= bound
            },
            !bb.initialized() ==> {
                &&& bb.x_min == i64::MAX && bb.x_max == i64::MIN
                &&& bb.y_min == i64::MAX && bb.y_max == i64::MIN
                &&& bb.z_min == i64::MAX && bb.z_max == i64::MIN
            },
        decreases be - j,
    {
        bb.expand_to_include(positions[j]);
        j = j + 1;
    }
    bb
}

/// Exact capsule-capsule collision test between one bullet and one enemy:
/// both body segments are built from the centers and facing directions, and
/// the exact squared segment distance is compared against the squared sum
/// of the radii.
pub fn bullet_collides_with_enemy(
    position: &Vec3,
    direction: &Vec3,
    enemy: &Enemy,
    bullet_collider: &Capsule,
    enemy_collider: &Capsule,
) -> (hit: bool)
    requires
        v3_bounded(position@, POS_LIMIT as int),
        v3_bounded(direction@, DIR_SCALE as int),
        enemy_wf(*enemy),
        bullet_collider.wf(),
        enemy_collider.wf(),
    ensures
        hit == hits(position@, direction@, *enemy, *bullet_collider, *enemy_collider),
{
    let bh: i64 = bullet_collider.height / 2;
    let eh: i64 = enemy_collider.height / 2;
    proof {
        broadcast use vstd::arithmetic::div_mod::lemma_div_pos_is_pos;
        broadcast use vstd::arithmetic::div_mod::lemma_div_is_ordered;

        assert(0 <= bullet_collider.height as int / 2 <= 1024int / 2);
        assert(0 <= enemy_collider.height as int / 2 <= 1024int / 2);
        assert((512int) * (DIR_SCALE as int) == (DIR_SCALE as int) * 512) by (nonlinear_arith);
        lemma_mul_bound(direction@.x, bh as int, DIR_SCALE as int, 512);
        lemma_mul_bound(direction@.y, bh as int, DIR_SCALE as int, 512);
        lemma_mul_bound(direction@.z, bh as int, DIR_SCALE as int, 512);
        lemma_mul_bound(enemy.direction@.x, eh as int, DIR_SCALE as int, 512);
        lemma_mul_bound(enemy.direction@.y, eh as int, DIR_SCALE as int, 512);
        lemma_mul_bound(enemy.direction@.z, eh as int, DIR_SCALE as int, 512);
        lemma_tdiv_bound(direction@.x * bh, DIR_SCALE as int, 512);
        lemma_tdiv_bound(direction@.y * bh, DIR_SCALE as int, 512);
        lemma_tdiv_bound(direction@.z * bh, DIR_SCALE as int, 512);
        lemma_tdiv_bound(enemy.direction@.x * eh, DIR_SCALE as int, 512);
        lemma_tdiv_bound(enemy.direction@.y * eh, DIR_SCALE as int, 512);
        lemma_tdiv_bound(enemy.direction@.z * eh, DIR_SCALE as int, 512);
    }
    let obx: i64 = (direction.x * bh) / DIR_SCALE;
    let oby: i64 = (direction.y * bh) / DIR_SCALE;
    let obz: i64 = (direction.z * bh) / DIR_SCALE;
    let oex: i64 = (enemy.direction.x * eh) / DIR_SCALE;
    let oey: i64 = (enemy.direction.y * eh) / DIR_SCALE;
    let oez: i64 = (enemy.direction.z * eh) / DIR_SCALE;
    let a0 = Vec3 { x: position.x - obx, y: position.y - oby, z: position.z - obz };
    let a1 = Vec3 { x: position.x + obx, y: position.y + oby, z: position.z + obz };
    let b0 = Vec3 {
        x: enemy.position.x - oex,
        y: enemy.position.y - oey,
        z: enemy.position.z - oez,
    };
    let b1 = Vec3 {
        x: enemy.position.x + oex,
        y: enemy.position.y + oey,
        z: enemy.position.z + oez,
    };
    let d = distance_between_line_segments(&a0, &a1, &b0, &b1);
    let r: i64 = bullet_collider.radius + enemy_collider.radius;
    proof {
        lemma_mul_bound(r as int, r as int, 1024, 1024);
    }
    let r2: i128 = (r as i128) * (r as i128);
    proof {
        lemma_mul_bound(r2 as int, d@.den, 0x100000, DELTA_CAP as int);
        assert(0x100000 * (DELTA_CAP as int) <= i128::MAX as int) by (nonlinear_arith);
    }
    d.num <= r2 * d.den
}

impl BulletSystem {
    /// Advances one frame.  Every volley's lifetime is decremented; the
    /// bullets of volleys still alive are moved along their directions and
    /// collision-tested against every still-alive enemy, sub-group by
    /// sub-group with bounding-box culling, killing an enemy on the first
    /// hit; the expired volley prefix is retired in one bulk compaction
    /// that re-indexes the survivors; and the positions of enemies killed
    /// this frame are returned as impact events.
    pub fn update_bullets(&mut self, delta_time: i64, enemies: &mut Vec<Enemy>) -> (impacts: Vec<
        Vec3,
    >)
        requires
            old(self).wf(),
            0 <= delta_time <= 0x10000,
            forall|k: int| 0 <= k < old(enemies)@.len() ==> enemy_wf(#[trigger] old(enemies)@[k]),
        ensures
            final(self).wf(),
            final(self).config == old(self).config,
            final(enemies)@.len() == old(enemies)@.len(),
            forall|k: int|
                0 <= k < old(enemies)@.len() ==> {
                    let e0 = #[trigger] old(enemies)@[k];
                    let e1 = final(enemies)@[k];
                    &&& e1.position == e0.position
                    &&& e1.direction == e0.direction
                    &&& (!e0.is_alive ==> !e1.is_alive)
                    &&& ((e0.is_alive && !e1.is_alive) ==> killed_by_volleys(
                        *old(self),
                        delta_time as int,
                        e0,
                    ))
                },
            final(self).bullet_groups@ == surviving_groups(*old(self), delta_time as int),
            final(self).bullet_positions@.len() == old(self).total_bullets() - expired_drop_count(
                *old(self),
                delta_time as int,
            ),
            final(self).bullet_directions@ == old(self).bullet_directions@.subrange(
                expired_drop_count(*old(self), delta_time as int),
                old(self).total_bullets(),
            ),
            final(self).bullet_rotations@ == old(self).bullet_rotations@.subrange(
                expired_drop_count(*old(self), delta_time as int),
                old(self).total_bullets(),
            ),
            forall|j2: int|
                0 <= j2 < final(self).bullet_positions@.len() ==> (
                #[trigger] final(self).bullet_positions@[j2])@ == moved_v3(
                    old(self).bullet_positions@[j2 + expired_drop_count(
                        *old(self),
                        delta_time as int,
                    )]@,
                    old(self).bullet_directions@[j2 + expired_drop_count(
                        *old(self),
                        delta_time as int,
                    )]@,
                    delta_time as int * old(self).config.speed,
                ),
            impacts@ == kill_seq_upto(
                old(enemies)@,
                final(enemies)@,
                old(enemies)@.len() as int,
            ),
    {
        let ghost pre = *old(self);
        let ghost mag: int = delta_time as int * pre.config.speed;

        // Remember which enemies enter the frame alive, for the impact list.
        let en: usize = enemies.len();
        let mut alive_before: Vec<bool> = Vec::new();
        let mut t: usize = 0;
        while t < en
            invariant
                0 <= t <= en,
                en == enemies@.len(),
                enemies@ == old(enemies)@,
                alive_before@.len() == t,
                forall|q: int|
                    0 <= q < t ==> alive_before@[q] == (#[trigger] old(enemies)@[q]).is_alive,
            decreases en - t,
        {
            alive_before.push(enemies[t].is_alive);
            t = t + 1;
        }
        proof {
            lemma_mul_bound(delta_time as int, pre.config.speed as int, 0x10000, 0x10000);
        }
        let delta_mag: i64 = delta_time * self.config.speed;
        let use_aabb = enemies.len() > 0;
        let num_sub_groups: usize = if use_aabb {
            9
        } else {
            1
        };
        let max_dist: i64 = max_collision_distance(
            &self.config.bullet_collider,
            &self.config.enemy_collider,
        );
        let num_groups: usize = self.bullet_groups.len();
        let mut gi: usize = 0;
        while gi < num_groups
            invariant
                0 <= gi <= num_groups,
                num_groups == self.bullet_groups@.len(),
                num_groups == pre.bullet_groups@.len(),
                self.config == pre.config,
                pre.wf(),
                pre == *old(self),
                0 <= delta_time <= 0x10000,
                delta_mag as int == mag,
                mag == delta_time as int * pre.config.speed,
                0 <= delta_mag <= 0x100000000,
                0 <= max_dist <= 2048,
                1 <= num_sub_groups <= 9,
                en == enemies@.len(),
                forall|k: int|
                    0 <= k < old(enemies)@.len() ==> enemy_wf(#[trigger] old(enemies)@[k]),
                alive_before@.len() == en,
                forall|q: int|
                    0 <= q < en ==> alive_before@[q] == (#[trigger] old(enemies)@[q]).is_alive,
                forall|i: int|
                    0 <= i < gi ==> (#[trigger] self.bullet_groups@[i]) == dec_group(
                        pre.bullet_groups@[i],
                        delta_time as int,
                    ),
                forall|i: int|
                    gi <= i < num_groups ==> (#[trigger] self.bullet_groups@[i])
                        == pre.bullet_groups@[i],
                self.bullet_directions@ == pre.bullet_directions@,
                self.bullet_rotations@ == pre.bullet_rotations@,
                self.bullet_positions@.len() == pre.bullet_positions@.len(),
                forall|i: int, j: int|
                    #![trigger pre.bullet_groups@[i], self.bullet_positions@[j]]
                    0 <= i < pre.bullet_groups@.len() && pre.bullet_groups@[i].start_index <= j
                        < pre.bullet_groups@[i].start_index + pre.bullet_groups@[i].group_size
                        ==> {
                        let gg = pre.bullet_groups@[i];
                        &&& ((i < gi && gg.time_to_live - delta_time > 0) ==> (
                        self.bullet_positions@[j]@ == moved_v3(
                            pre.bullet_positions@[j]@,
                            pre.bullet_directions@[j]@,
                            mag,
                        ) && v3_bounded(
                            self.bullet_positions@[j]@,
                            POS_LIMIT - (gg.time_to_live - delta_time) * pre.config.speed,
                        )))
                        &&& (!(i < gi && gg.time_to_live - delta_time > 0)
                            ==> self.bullet_positions@[j] == pre.bullet_positions@[j])
                    },
                enemies@.len() == old(enemies)@.len(),
                forall|k: int|
                    0 <= k < old(enemies)@.len() ==> {
                        let e0 = #[trigger] old(enemies)@[k];
                        let e1 = enemies@[k];
                        &&& e1.position == e0.position
                        &&& e1.direction == e0.direction
                        &&& (!e0.is_alive ==> !e1.is_alive)
                        &&& ((e0.is_alive && !e1.is_alive) ==> killed_by_volleys_upto(
                            pre,
                            delta_time as int,
                            e0,
                            gi as int,
                        ))
                    },
            decreases num_groups - gi,
        {
            let g = self.bullet_groups[gi];
            proof {
                assert(g == pre.bullet_groups@[gi as int]);
                lemma_group_range_within_total(pre, gi as int);
            }
            let new_ttl: i64 = g.time_to_live - delta_time;
            self.bullet_groups.set(
                gi,
                BulletGroup {
                    start_index: g.start_index,
                    group_size: g.group_size,
                    time_to_live: new_ttl,
                },
            );
            if new_ttl > 0 {
                let ghost headroom: int = POS_LIMIT - BulletSystem::ttl_left(g)
                    * pre.config.speed;
                proof {
                    assert(BulletSystem::ttl_left(g) == g.time_to_live);
                    assert(g.time_to_live as int * pre.config.speed <= pre.config.lifetime as int
                        * pre.config.speed && 0 <= g.time_to_live as int * pre.config.speed)
                        by (nonlinear_arith)
                        requires
                            0 < g.time_to_live <= pre.config.lifetime,
                            0 <= pre.config.speed,
                    ;
                    assert(pre.config.lifetime as int * pre.config.speed == pre.config.speed
                        * pre.config.lifetime) by (nonlinear_arith);
                    assert((g.time_to_live - delta_time) as int * pre.config.speed
                        == g.time_to_live as int * pre.config.speed - delta_time as int
                        * pre.config.speed && 0 <= (g.time_to_live - delta_time) as int
                        * pre.config.speed) by (nonlinear_arith)
                        requires
                            0 < g.time_to_live - delta_time,
                            0 <= pre.config.speed,
                            0 <= delta_time,
                    ;
                    // Bullets of this volley are untouched so far and within
                    // the headroom the invariant grants them.
                    assert forall|j: int|
                        g.start_index <= j < g.start_index + g.group_size implies v3_bounded(
                        (#[trigger] self.bullet_positions@[j])@,
                        headroom,
                    ) && self.bullet_positions@[j] == pre.bullet_positions@[j] by {
                        assert(pre.bullet_groups@[gi as int] == g);
                        assert(self.bullet_positions@[j] == pre.bullet_positions@[j]);
                        assert(v3_bounded(pre.bullet_positions@[j]@, headroom));
                    }
                    assert forall|k: int| 0 <= k < enemies@.len() implies enemy_wf(
                        #[trigger] enemies@[k],
                    ) by {
                        assert(enemy_wf(old(enemies)@[k]));
                        assert(enemies@[k].position == old(enemies)@[k].position);
                        assert(enemies@[k].direction == old(enemies)@[k].direction);
                    }
                }
                let ghost positions_at_call = self.bullet_positions@;
                let ghost enemies_at_call = enemies@;
                process_live_group(
                    &mut self.bullet_positions,
                    &self.bullet_directions,
                    enemies,
                    g.start_index,
                    g.group_size,
                    num_sub_groups,
                    use_aabb,
                    max_dist,
                    delta_mag,
                    &self.config.bullet_collider,
                    &self.config.enemy_collider,
                    Ghost(headroom),
                );
                proof {
                    let gs = g.start_index as int;
                    let ge = g.start_index + g.group_size;
                    // Positions: this volley moved, everything else as before.
                    assert forall|i: int, j: int|
                        #![trigger pre.bullet_groups@[i], self.bullet_positions@[j]]
                        0 <= i < pre.bullet_groups@.len() && pre.bullet_groups@[i].start_index
                            <= j < pre.bullet_groups@[i].start_index
                            + pre.bullet_groups@[i].group_size implies {
                        let gg = pre.bullet_groups@[i];
                        &&& ((i < gi + 1 && gg.time_to_live - delta_time > 0) ==> (
                        self.bullet_positions@[j]@ == moved_v3(
                            pre.bullet_positions@[j]@,
                            pre.bullet_directions@[j]@,
                            mag,
                        ) && v3_bounded(
                            self.bullet_positions@[j]@,
                            POS_LIMIT - (gg.time_to_live - delta_time) * pre.config.speed,
                        )))
                        &&& (!(i < gi + 1 && gg.time_to_live - delta_time > 0)
                            ==> self.bullet_positions@[j] == pre.bullet_positions@[j])
                    } by {
                        if i == gi as int {
                            assert(pre.bullet_groups@[i] == g);
                            assert(gs <= j < ge);
                            assert(positions_at_call[j] == pre.bullet_positions@[j]);
                            assert(self.bullet_positions@[j]@ == moved_v3(
                                positions_at_call[j]@,
                                self.bullet_directions@[j]@,
                                delta_mag as int,
                            ));
                        } else {
                            lemma_group_range_within_total(pre, i);
                            if i < gi as int {
                                lemma_range_le(pre, i, gi as int);
                            } else {
                                lemma_range_le(pre, gi as int, i);
                            }
                            assert(!(gs <= j < ge));
                            assert(self.bullet_positions@[j] == positions_at_call[j]);
                        }
                    }
                    // Enemies: hits of this volley extend the kill witness.
                    assert forall|k: int|
                        0 <= k < old(enemies)@.len() implies {
                        let e0 = #[trigger] old(enemies)@[k];
                        let e1 = enemies@[k];
                        &&& e1.position == e0.position
                        &&& e1.direction == e0.direction
                        &&& (!e0.is_alive ==> !e1.is_alive)
                        &&& ((e0.is_alive && !e1.is_alive) ==> killed_by_volleys_upto(
                            pre,
                            delta_time as int,
                            e0,
                            gi as int + 1,
                        ))
                    } by {
                        let e0 = old(enemies)@[k];
                        let ec = enemies_at_call[k];
                        let e1 = enemies@[k];
                        if e0.is_alive && !e1.is_alive {
                            if !ec.is_alive {
                                assert(killed_by_volleys_upto(
                                    pre,
                                    delta_time as int,
                                    e0,
                                    gi as int,
                                ));
                            } else {
                                assert(ec == e0);
                                assert(group_hit(
                                    positions_at_call,
                                    self.bullet_directions@,
                                    gs,
                                    ge,
                                    delta_mag as int,
                                    e0,
                                    pre.config.bullet_collider,
                                    pre.config.enemy_collider,
                                ));
                                lemma_group_hit_agree(
                                    positions_at_call,
                                    pre.bullet_positions@,
                                    pre.bullet_directions@,
                                    gs,
                                    ge,
                                    mag,
                                    e0,
                                    pre.config.bullet_collider,
                                    pre.config.enemy_collider,
                                );
                                assert(pre.bullet_groups@[gi as int].time_to_live - delta_time
                                    > 0);
                                assert(killed_by_volleys_upto(
                                    pre,
                                    delta_time as int,
                                    e0,
                                    gi as int + 1,
                                ));
                            }
                        }
                    }
                }
            }
            gi = gi + 1;
        }
        let impacts = collect_impacts(enemies, &alive_before, Ghost(old(enemies)@));
        retire_expired(self, delta_time, Ghost(pre), Ghost(mag));
        impacts
    }
}

/// Positions of the enemies that went from alive to dead this frame, in
/// enemy order.
fn collect_impacts(enemies: &Vec<Enemy>, alive_before: &Vec<bool>, Ghost(enemies0): Ghost<
    Seq<Enemy>,
>) -> (impacts: Vec<Vec3>)
    requires
        alive_before@.len() == enemies@.len(),
        enemies0.len() == enemies@.len(),
        forall|q: int| 0 <= q < enemies@.len() ==> alive_before@[q] == (#[trigger] enemies0[q]).is_alive,
        forall|q: int|
            0 <= q < enemies@.len() ==> (#[trigger] enemies@[q]).position == enemies0[q].position,
    ensures
        impacts@ == kill_seq_upto(enemies0, enemies@, enemies@.len() as int),
{
    let en = enemies.len();
    let mut impacts: Vec<Vec3> = Vec::new();
    let mut kk: usize = 0;
    while kk < en
        invariant
            0 <= kk <= en,
            en == enemies@.len(),
            alive_before@.len() == en,
            enemies0.len() == en,
            forall|q: int| 0 <= q < en ==> alive_before@[q] == (#[trigger] enemies0[q]).is_alive,
            forall|q: int|
                0 <= q < en ==> (#[trigger] enemies@[q]).position == enemies0[q].position,
            impacts@ == kill_seq_upto(enemies0, enemies@, kk as int),
        decreases en - kk,
    {
        if alive_before[kk] && !enemies[kk].is_alive {
            impacts.push(enemies[kk].position);
        }
        kk = kk + 1;
    }
    impacts
}

/// Retires the expired volley prefix: counts expired volleys from the
/// front, drops their bullets from the head of every buffer in one bulk
/// pass, and shifts every surviving volley's start index back.
fn retire_expired(
    sys: &mut BulletSystem,
    delta_time: i64,
    Ghost(pre): Ghost<BulletSystem>,
    Ghost(mag): Ghost<int>,
)
    requires
        pre.wf(),
        0 <= delta_time <= 0x10000,
        mag == delta_time as int * pre.config.speed,
        old(sys).config == pre.config,
        old(sys).bullet_groups@.len() == pre.bullet_groups@.len(),
        forall|i: int|
            0 <= i < pre.bullet_groups@.len() ==> (#[trigger] old(sys).bullet_groups@[i])
                == dec_group(pre.bullet_groups@[i], delta_time as int),
        old(sys).bullet_directions@ == pre.bullet_directions@,
        old(sys).bullet_rotations@ == pre.bullet_rotations@,
        old(sys).bullet_positions@.len() == pre.bullet_positions@.len(),
        forall|i: int, j: int|
            #![trigger pre.bullet_groups@[i], old(sys).bullet_positions@[j]]
            0 <= i < pre.bullet_groups@.len() && pre.bullet_groups@[i].start_index <= j
                < pre.bullet_groups@[i].start_index + pre.bullet_groups@[i].group_size ==> {
                let gg = pre.bullet_groups@[i];
                &&& ((gg.time_to_live - delta_time > 0) ==> (old(sys).bullet_positions@[j]@
                    == moved_v3(pre.bullet_positions@[j]@, pre.bullet_directions@[j]@, mag)
                    && v3_bounded(
                    old(sys).bullet_positions@[j]@,
                    POS_LIMIT - (gg.time_to_live - delta_time) * pre.config.speed,
                )))
                &&& ((gg.time_to_live - delta_time <= 0) ==> old(sys).bullet_positions@[j]
                    == pre.bullet_positions@[j])
            },
    ensures
        final(sys).wf(),
        final(sys).config == pre.config,
        final(sys).bullet_groups@ == surviving_groups(pre, delta_time as int),
        final(sys).bullet_positions@.len() == pre.total_bullets() - expired_drop_count(
            pre,
            delta_time as int,
        ),
        final(sys).bullet_directions@ == pre.bullet_directions@.subrange(
            expired_drop_count(pre, delta_time as int),
            pre.total_bullets(),
        ),
        final(sys).bullet_rotations@ == pre.bullet_rotations@.subrange(
            expired_drop_count(pre, delta_time as int),
            pre.total_bullets(),
        ),
        forall|j2: int|
            0 <= j2 < final(sys).bullet_positions@.len() ==> (
            #[trigger] final(sys).bullet_positions@[j2])@ == moved_v3(
                pre.bullet_positions@[j2 + expired_drop_count(pre, delta_time as int)]@,
                pre.bullet_directions@[j2 + expired_drop_count(pre, delta_time as int)]@,
                mag,
            ),
{
    let ghost cur = *old(sys);
    proof {
        assert(cur.bullet_groups@ =~= decrement_groups(pre.bullet_groups@, delta_time as int));
        assert(cur.groups_contiguous()) by {
            assert forall|i: int|
                0 <= i && i + 1 < cur.bullet_groups@.len() implies (
            #[trigger] cur.bullet_groups@[i + 1].start_index) == cur.bullet_groups@[i].start_index
                + cur.bullet_groups@[i].group_size by {
                assert(pre.bullet_groups@[i + 1].start_index == pre.bullet_groups@[i].start_index
                    + pre.bullet_groups@[i].group_size);
            }
            if cur.bullet_groups@.len() > 0 {
                assert(cur.bullet_groups@[0].start_index == pre.bullet_groups@[0].start_index);
            }
        }
    }
    let num_groups = sys.bullet_groups.len();
    let mut ke: usize = 0;
    while ke < num_groups && sys.bullet_groups[ke].time_to_live <= 0
        invariant
            0 <= ke <= num_groups,
            num_groups == sys.bullet_groups@.len(),
            *sys == cur,
            forall|q: int| 0 <= q < ke ==> (#[trigger] sys.bullet_groups@[q]).time_to_live <= 0,
        decreases num_groups - ke,
    {
        ke = ke + 1;
    }
    proof {
        lemma_num_expired_eq(cur.bullet_groups@, ke as int);
        // Volleys at or after the scan point are still alive.
        assert forall|i: int|
            ke <= i < num_groups implies (#[trigger] cur.bullet_groups@[i]).time_to_live > 0 by {
            if ke < num_groups {
                assert(pre.bullet_groups@[ke as int].time_to_live
                    <= pre.bullet_groups@[i].time_to_live);
            }
        }
        if (ke as int) < num_groups {
            lemma_group_range_within_total(cur, ke as int);
        }
        assert forall|i: int|
            ke <= i < num_groups implies (#[trigger] cur.bullet_groups@[i]).start_index >= ({
            if ke == num_groups {
                cur.total_bullets()
            } else {
                cur.bullet_groups@[ke as int].start_index as int
            }
        }) by {
            if (ke as int) < i {
                lemma_range_le(cur, ke as int, i);
            }
        }
    }
    let total_now: usize = sys.bullet_positions.len();
    let dropped: usize = if ke == num_groups {
        total_now
    } else {
        sys.bullet_groups[ke].start_index
    };
    proof {
        assert(cur.total_bullets() == pre.total_bullets());
        assert(dropped <= total_now) by {
            if (ke as int) < num_groups {
                lemma_start_monotone_last(cur, ke as int);
            }
        }
    }
    retire_groups(&mut sys.bullet_groups, ke, dropped);
    drop_prefix(&mut sys.bullet_positions, dropped);
    drop_prefix(&mut sys.bullet_directions, dropped);
    drop_prefix(&mut sys.bullet_rotations, dropped);
    proof {
        lemma_retire_final(pre, cur, *sys, delta_time as int, mag, ke as int, dropped as int);
    }
}

/// After the bulk compaction, the system is well formed again and the
/// surviving buffers are exactly the moved survivors, re-indexed.
#[verifier::rlimit(60)]
proof fn lemma_retire_final(
    pre: BulletSystem,
    cur: BulletSystem,
    post: BulletSystem,
    delta: int,
    mag: int,
    ke: int,
    dropped_arg: int,
)
    requires
        pre.wf(),
        0 <= delta <= 0x10000,
        mag == delta * pre.config.speed,
        cur.config == pre.config,
        cur.bullet_groups@.len() == pre.bullet_groups@.len(),
        forall|i: int|
            0 <= i < pre.bullet_groups@.len() ==> (#[trigger] cur.bullet_groups@[i]) == dec_group(
                pre.bullet_groups@[i],
                delta,
            ),
        cur.bullet_directions@ == pre.bullet_directions@,
        cur.bullet_rotations@ == pre.bullet_rotations@,
        cur.bullet_positions@.len() == pre.bullet_positions@.len(),
        forall|i: int, j: int|
            #![trigger pre.bullet_groups@[i], cur.bullet_positions@[j]]
            0 <= i < pre.bullet_groups@.len() && pre.bullet_groups@[i].start_index <= j
                < pre.bullet_groups@[i].start_index + pre.bullet_groups@[i].group_size ==> {
                let gg = pre.bullet_groups@[i];
                &&& ((gg.time_to_live - delta > 0) ==> (cur.bullet_positions@[j]@ == moved_v3(
                    pre.bullet_positions@[j]@,
                    pre.bullet_directions@[j]@,
                    mag,
                ) && v3_bounded(
                    cur.bullet_positions@[j]@,
                    POS_LIMIT - (gg.time_to_live - delta) * pre.config.speed,
                )))
                &&& ((gg.time_to_live - delta <= 0) ==> cur.bullet_positions@[j]
                    == pre.bullet_positions@[j])
            },
        0 <= ke <= cur.bullet_groups@.len(),
        forall|q: int| 0 <= q < ke ==> (#[trigger] cur.bullet_groups@[q]).time_to_live <= 0,
        forall|i: int|
            ke <= i < cur.bullet_groups@.len() ==> (
            #[trigger] cur.bullet_groups@[i]).time_to_live > 0,
        forall|i: int|
            ke <= i < cur.bullet_groups@.len() ==> (#[trigger] cur.bullet_groups@[i]).start_index
                >= dropped_arg,
        dropped_arg == (if ke == cur.bullet_groups@.len() {
            cur.total_bullets()
        } else {
            cur.bullet_groups@[ke].start_index as int
        }),
        0 <= dropped_arg <= cur.bullet_positions@.len(),
        num_expired(cur.bullet_groups@) == ke,
        post.config == cur.config,
        post.bullet_groups@.len() == cur.bullet_groups@.len() - ke,
        forall|i: int|
            0 <= i < post.bullet_groups@.len() ==> (#[trigger] post.bullet_groups@[i])
                == (BulletGroup {
                start_index: (cur.bullet_groups@[ke + i].start_index - dropped_arg) as usize,
                group_size: cur.bullet_groups@[ke + i].group_size,
                time_to_live: cur.bullet_groups@[ke + i].time_to_live,
            }),
        post.bullet_positions@ == cur.bullet_positions@.subrange(
            dropped_arg,
            cur.bullet_positions@.len() as int,
        ),
        post.bullet_directions@ == cur.bullet_directions@.subrange(
            dropped_arg,
            cur.bullet_directions@.len() as int,
        ),
        post.bullet_rotations@ == cur.bullet_rotations@.subrange(
            dropped_arg,
            cur.bullet_rotations@.len() as int,
        ),
    ensures
        post.wf(),
        post.config == pre.config,
        post.bullet_groups@ == surviving_groups(pre, delta),
        post.bullet_positions@.len() == pre.total_bullets() - expired_drop_count(pre, delta),
        post.bullet_directions@ == pre.bullet_directions@.subrange(
            expired_drop_count(pre, delta),
            pre.total_bullets(),
        ),
        post.bullet_rotations@ == pre.bullet_rotations@.subrange(
            expired_drop_count(pre, delta),
            pre.total_bullets(),
        ),
        forall|j2: int|
            0 <= j2 < post.bullet_positions@.len() ==> (#[trigger] post.bullet_positions@[j2])@
                == moved_v3(
                pre.bullet_positions@[j2 + expired_drop_count(pre, delta)]@,
                pre.bullet_directions@[j2 + expired_drop_count(pre, delta)]@,
                mag,
            ),
{
    let groups1 = decrement_groups(pre.bullet_groups@, delta);
    assert(groups1 =~= cur.bullet_groups@);
    let len = cur.bullet_groups@.len() as int;
    assert(cur.groups_contiguous()) by {
        assert forall|i: int|
            0 <= i && i + 1 < len implies (#[trigger] cur.bullet_groups@[i + 1].start_index)
            == cur.bullet_groups@[i].start_index + cur.bullet_groups@[i].group_size by {
            assert(pre.bullet_groups@[i + 1].start_index == pre.bullet_groups@[i].start_index
                + pre.bullet_groups@[i].group_size);
        }
        if len > 0 {
            assert(cur.bullet_groups@[0].start_index == pre.bullet_groups@[0].start_index);
        }
    }
    assert(cur.total_bullets() == pre.total_bullets());
    assert(expired_drop_count(pre, delta) == dropped_arg);
    // The survivors' buffer entries are exactly the moved bullets.
    assert forall|j: int|
        dropped_arg <= j < pre.total_bullets() implies {
        &&& ((#[trigger] post.bullet_positions@[j - dropped_arg])@ == moved_v3(
            pre.bullet_positions@[j]@,
            pre.bullet_directions@[j]@,
            mag,
        ))
        &&& post.bullet_directions@[j - dropped_arg] == pre.bullet_directions@[j]
        &&& post.bullet_rotations@[j - dropped_arg] == pre.bullet_rotations@[j]
    } by {
        assert(post.bullet_positions@[j - dropped_arg] == cur.bullet_positions@[j]);
        assert(ke < len);
        lemma_index_in_group(cur, j, ke);
        let i = choose|i: int|
            ke <= i < len && (#[trigger] cur.bullet_groups@[i]).start_index <= j
                < cur.bullet_groups@[i].start_index + cur.bullet_groups@[i].group_size;
        assert(pre.bullet_groups@[i].time_to_live - delta > 0);
        assert(cur.bullet_positions@[j]@ == moved_v3(
            pre.bullet_positions@[j]@,
            pre.bullet_directions@[j]@,
            mag,
        ));
    }
    // Well-formedness of the compacted system.
    assert(post.groups_contiguous()) by {
        if post.bullet_groups@.len() > 0 {
            assert(post.bullet_groups@[0].start_index == 0);
        }
        assert forall|i: int|
            0 <= i && i + 1 < post.bullet_groups@.len() implies (
        #[trigger] post.bullet_groups@[i + 1].start_index) == post.bullet_groups@[i].start_index
            + post.bullet_groups@[i].group_size by {
            assert(cur.bullet_groups@[(ke + i) + 1].start_index == cur.bullet_groups@[ke
                + i].start_index + cur.bullet_groups@[ke + i].group_size);
        }
    }
    if post.bullet_groups@.len() > 0 {
        assert(post.total_bullets() == cur.total_bullets() - dropped_arg) by {
            assert(post.bullet_groups@.last() == (BulletGroup {
                start_index: (cur.bullet_groups@[len - 1].start_index - dropped_arg) as usize,
                group_size: cur.bullet_groups@[len - 1].group_size,
                time_to_live: cur.bullet_groups@[len - 1].time_to_live,
            }));
        }
    } else {
        assert(ke == len);
        assert(post.total_bullets() == 0);
    }
    assert forall|i: int, j: int|
        #![trigger post.bullet_groups@[i], post.bullet_positions@[j]]
        0 <= i < post.bullet_groups@.len() && post.bullet_groups@[i].start_index <= j
            < post.bullet_groups@[i].start_index + post.bullet_groups@[i].group_size implies v3_bounded(
        post.bullet_positions@[j]@,
        POS_LIMIT - BulletSystem::ttl_left(post.bullet_groups@[i]) * post.config.speed,
    ) by {
        let gc = cur.bullet_groups@[ke + i];
        let gp = pre.bullet_groups@[ke + i];
        assert(gc == dec_group(gp, delta));
        assert(gc.time_to_live > 0);
        let j0 = j + dropped_arg;
        assert(gp.start_index <= j0 < gp.start_index + gp.group_size);
        lemma_group_range_within_total(cur, ke + i);
        assert(j0 < cur.bullet_positions@.len());
        assert(post.bullet_positions@[j] == cur.bullet_positions@[j0]);
        assert(v3_bounded(
            cur.bullet_positions@[j0]@,
            POS_LIMIT - (gp.time_to_live - delta) * pre.config.speed,
        ));
        assert(BulletSystem::ttl_left(post.bullet_groups@[i]) == gp.time_to_live - delta);
    }
    assert forall|i: int, j: int|
        #![trigger post.bullet_groups@[i], post.bullet_groups@[j]]
        0 <= i <= j < post.bullet_groups@.len() implies post.bullet_groups@[i].time_to_live
        <= post.bullet_groups@[j].time_to_live by {
        assert(pre.bullet_groups@[ke + i].time_to_live <= pre.bullet_groups@[ke
            + j].time_to_live);
    }
    assert forall|j: int|
        0 <= j < post.bullet_directions@.len() implies v3_bounded(
        (#[trigger] post.bullet_directions@[j])@,
        DIR_SCALE as int,
    ) by {
        assert(post.bullet_directions@[j] == pre.bullet_directions@[j + dropped_arg]);
        assert(v3_bounded(pre.bullet_directions@[j + dropped_arg]@, DIR_SCALE as int));
    }
    assert forall|i: int|
        0 <= i < post.bullet_groups@.len() implies (#[trigger] post.bullet_groups@[i]).group_size
        <= 0x10000 && -0x10000 <= post.bullet_groups@[i].time_to_live
        <= post.config.lifetime by {
        assert(cur.bullet_groups@[ke + i] == dec_group(pre.bullet_groups@[ke + i], delta));
        assert(-0x10000 <= pre.bullet_groups@[ke + i].time_to_live <= pre.config.lifetime);
        assert(cur.bullet_groups@[ke + i].time_to_live > 0);
    }
    // The new contract shapes.
    assert(post.bullet_groups@ =~= surviving_groups(pre, delta));
    assert(post.bullet_directions@ =~= pre.bullet_directions@.subrange(
        expired_drop_count(pre, delta),
        pre.total_bullets(),
    ));
    assert(post.bullet_rotations@ =~= pre.bullet_rotations@.subrange(
        expired_drop_count(pre, delta),
        pre.total_bullets(),
    ));
    assert forall|j2: int|
        0 <= j2 < post.bullet_positions@.len() implies (#[trigger] post.bullet_positions@[j2])@
        == moved_v3(
        pre.bullet_positions@[j2 + expired_drop_count(pre, delta)]@,
        pre.bullet_directions@[j2 + expired_drop_count(pre, delta)]@,
        mag,
    ) by {
        let j = j2 + dropped_arg;
        assert(dropped_arg <= j < pre.total_bullets());
        assert(post.bullet_positions@[j - dropped_arg]@ == moved_v3(
            pre.bullet_positions@[j]@,
            pre.bullet_directions@[j]@,
            mag,
        ));
    }
}

/// A volley's start index never exceeds the total bullet count.
proof fn lemma_start_monotone_last(s: BulletSystem, i: int)
    requires
        s.groups_contiguous(),
        0 <= i < s.bullet_groups@.len(),
    ensures
        s.bullet_groups@[i].start_index <= s.total_bullets(),
{
    lemma_group_range_within_total(s, i);
}

/// Appending one in-range volley at the tail keeps the system invariant.
proof fn lemma_create_preserves_wf(
    pre: BulletSystem,
    post: BulletSystem,
    spawn_point: Vec3,
    dirs: Seq<Vec3>,
    group: BulletGroup,
)
    requires
        pre.wf(),
        pre.bullet_groups@.len() < pre.config.max_bullet_groups,
        0 < dirs.len() <= 0x10000,
        v3_bounded(spawn_point@, POS_LIMIT - pre.config.lifetime * pre.config.speed),
        forall|j: int| 0 <= j < dirs.len() ==> v3_bounded((#[trigger] dirs[j])@, DIR_SCALE as int),
        group == (BulletGroup {
            start_index: pre.total_bullets() as usize,
            group_size: dirs.len() as usize,
            time_to_live: pre.config.lifetime,
        }),
        post.config == pre.config,
        post.bullet_groups@ == pre.bullet_groups@.push(group),
        post.bullet_positions@ == pre.bullet_positions@ + Seq::new(dirs.len(), |k: int| spawn_point),
        post.bullet_directions@ == pre.bullet_directions@ + dirs,
        post.bullet_rotations@.len() == pre.bullet_rotations@.len() + dirs.len(),
    ensures
        post.wf(),
{
    lemma_total_bullets_bound(pre);
    assert(pre.bullet_groups@.len() * 0x10000 <= 4096 * 0x10000) by (nonlinear_arith)
        requires
            pre.bullet_groups@.len() <= 4096,
    ;
    assert(post.total_bullets() == pre.total_bullets() + dirs.len());
    assert forall|i: int, j: int|
        #![trigger post.bullet_groups@[i], post.bullet_positions@[j]]
        0 <= i < post.bullet_groups@.len() && post.bullet_groups@[i].start_index <= j
            < post.bullet_groups@[i].start_index + post.bullet_groups@[i].group_size implies v3_bounded(
        post.bullet_positions@[j]@,
        POS_LIMIT - BulletSystem::ttl_left(post.bullet_groups@[i]) * post.config.speed,
    ) by {
        if i < pre.bullet_groups@.len() {
            assert(pre.bullet_groups@[i] == post.bullet_groups@[i]);
            lemma_group_range_within_total(pre, i);
            assert(post.bullet_positions@[j] == pre.bullet_positions@[j]);
        } else {
            assert(post.bullet_groups@[i] == group);
            assert(post.bullet_positions@[j] == spawn_point);
            assert(BulletSystem::ttl_left(group) == pre.config.lifetime);
            assert(pre.config.lifetime * pre.config.speed == BulletSystem::ttl_left(group)
                * post.config.speed);
        }
    }
    assert forall|i: int|
        0 <= i < post.bullet_groups@.len() implies (#[trigger] post.bullet_groups@[i]).group_size
        <= 0x10000 by {
        if i < pre.bullet_groups@.len() {
            assert(pre.bullet_groups@[i] == post.bullet_groups@[i]);
        }
    }
    assert forall|i: int|
        0 <= i && i + 1 < post.bullet_groups@.len() implies (#[trigger] post.bullet_groups@[i
        + 1].start_index) == post.bullet_groups@[i].start_index
        + post.bullet_groups@[i].group_size by {
        if i + 1 < pre.bullet_groups@.len() {
            assert(pre.bullet_groups@[i + 1].start_index == pre.bullet_groups@[i].start_index
                + pre.bullet_groups@[i].group_size);
        } else {
            assert(post.bullet_groups@[i + 1] == group);
            assert(post.bullet_groups@[i] == pre.bullet_groups@.last());
        }
    }
    assert forall|i: int|
        0 <= i < post.bullet_groups@.len() implies -0x10000 <= (
    #[trigger] post.bullet_groups@[i]).time_to_live <= post.config.lifetime by {
        if i < pre.bullet_groups@.len() {
            assert(pre.bullet_groups@[i] == post.bullet_groups@[i]);
        }
    }
    assert forall|i: int, j: int|
        #![trigger post.bullet_groups@[i], post.bullet_groups@[j]]
        0 <= i <= j < post.bullet_groups@.len() implies post.bullet_groups@[i].time_to_live
        <= post.bullet_groups@[j].time_to_live by {
        if j < pre.bullet_groups@.len() {
            assert(pre.bullet_groups@[i] == post.bullet_groups@[i]);
            assert(pre.bullet_groups@[j] == post.bullet_groups@[j]);
        } else if i < pre.bullet_groups@.len() {
            assert(pre.bullet_groups@[i] == post.bullet_groups@[i]);
            assert(post.bullet_groups@[j] == group);
        }
    }
    assert forall|j: int|
        0 <= j < post.bullet_directions@.len() implies v3_bounded(
        (#[trigger] post.bullet_directions@[j])@,
        DIR_SCALE as int,
    ) by {
        if j < pre.bullet_directions@.len() {
            assert(post.bullet_directions@[j] == pre.bullet_directions@[j]);
        } else {
            assert(post.bullet_directions@[j] == dirs[j - pre.bullet_directions@.len()]);
        }
    }
}

/// With bounded group sizes, the total bullet count is bounded too.
proof fn lemma_total_bullets_bound(s: BulletSystem)
    requires
        s.groups_contiguous(),
        forall|i: int|
            0 <= i < s.bullet_groups@.len() ==> (#[trigger] s.bullet_groups@[i]).group_size
                <= 0x10000,
    ensures
        s.total_bullets() <= s.bullet_groups@.len() * 0x10000,
{
    if s.bullet_groups@.len() > 0 {
        lemma_start_bound(s, s.bullet_groups@.len() - 1);
    }
}

proof fn lemma_start_bound(s: BulletSystem, i: int)
    requires
        s.groups_contiguous(),
        forall|k: int|
            0 <= k < s.bullet_groups@.len() ==> (#[trigger] s.bullet_groups@[k]).group_size
                <= 0x10000,
        0 <= i < s.bullet_groups@.len(),
    ensures
        s.bullet_groups@[i].start_index <= i * 0x10000,
    decreases i,
{
    if i > 0 {
        lemma_start_bound(s, i - 1);
        assert(s.bullet_groups@[(i - 1) + 1].start_index == s.bullet_groups@[i - 1].start_index
            + s.bullet_groups@[i - 1].group_size);
        assert((i - 1) * 0x10000 + 0x10000 == i * 0x10000) by (nonlinear_arith);
    }
}

/// Whether any bullet in `[bs, be)` collides with the enemy, at the
/// bullets' current positions.
fn any_bullet_hits(
    positions: &Vec<Vec3>,
    directions: &Vec<Vec3>,
    bs: usize,
    be: usize,
    enemy: &Enemy,
    bullet_collider: &Capsule,
    enemy_collider: &Capsule,
) -> (hit: bool)
    requires
        bs <= be <= positions@.len(),
        directions@.len() == positions@.len(),
        bullet_collider.wf(),
        enemy_collider.wf(),
        enemy_wf(*enemy),
        forall|j: int|
            bs <= j < be ==> v3_bounded((#[trigger] positions@[j])@, POS_LIMIT as int),
        forall|j: int|
            bs <= j < be ==> v3_bounded((#[trigger] directions@[j])@, DIR_SCALE as int),
    ensures
        hit == exists|j: int|
            bs <= j < be && hits(
                (#[trigger] positions@[j])@,
                directions@[j]@,
                *enemy,
                *bullet_collider,
                *enemy_collider,
            ),
{
    let mut j: usize = bs;
    while j < be
        invariant
            bs <= j <= be <= positions@.len(),
            directions@.len() == positions@.len(),
            bullet_collider.wf(),
            enemy_collider.wf(),
            enemy_wf(*enemy),
            forall|t: int|
                bs <= t < be ==> v3_bounded((#[trigger] positions@[t])@, POS_LIMIT as int),
            forall|t: int|
                bs <= t < be ==> v3_bounded((#[trigger] directions@[t])@, DIR_SCALE as int),
            forall|t: int|
                bs <= t < j ==> !hits(
                    (#[trigger] positions@[t])@,
                    directions@[t]@,
                    *enemy,
                    *bullet_collider,
                    *enemy_collider,
                ),
        decreases be - j,
    {
        if bullet_collides_with_enemy(
            &positions[j],
            &directions[j],
            enemy,
            bullet_collider,
            enemy_collider,
        ) {
            return true;
        }
        j = j + 1;
    }
    false
}

/// Tests every still-alive enemy against the bullets of one sub-group,
/// killing it on the first hit.  When culling is active, an enemy whose
/// position lies outside the sub-group's inflated box is not tested.
#[verifier::loop_isolation(false)]
fn collide_subgroup(
    positions: &Vec<Vec3>,
    directions: &Vec<Vec3>,
    bs: usize,
    be: usize,
    enemies: &mut Vec<Enemy>,
    bb: &Aabb,
    use_aabb: bool,
    bullet_collider: &Capsule,
    enemy_collider: &Capsule,
    Ghost(pos0): Ghost<Seq<Vec3>>,
    Ghost(mag): Ghost<int>,
)
    requires
        bs <= be <= positions@.len(),
        directions@.len() == positions@.len(),
        pos0.len() == positions@.len(),
        bullet_collider.wf(),
        enemy_collider.wf(),
        forall|j: int|
            bs <= j < be ==> v3_bounded((#[trigger] positions@[j])@, POS_LIMIT as int),
        forall|j: int|
            bs <= j < be ==> v3_bounded((#[trigger] directions@[j])@, DIR_SCALE as int),
        forall|j: int|
            bs <= j < be ==> (#[trigger] positions@[j])@ == moved_v3(
                pos0[j]@,
                directions@[j]@,
                mag,
            ),
        forall|k: int| 0 <= k < old(enemies)@.len() ==> enemy_wf(#[trigger] old(enemies)@[k]),
    ensures
        final(enemies)@.len() == old(enemies)@.len(),
        forall|k: int|
            0 <= k < old(enemies)@.len() ==> {
                let e0 = #[trigger] old(enemies)@[k];
                let e1 = final(enemies)@[k];
                &&& e1.position == e0.position
                &&& e1.direction == e0.direction
                &&& (!e0.is_alive ==> !e1.is_alive)
                &&& ((e0.is_alive && !e1.is_alive) ==> group_hit(
                    pos0,
                    directions@,
                    bs as int,
                    be as int,
                    mag,
                    e0,
                    *bullet_collider,
                    *enemy_collider,
                ))
            },
{
    let n = enemies.len();
    let mut k: usize = 0;
    while k < n
        invariant
            0 <= k <= n,
            enemies@.len() == n,
            forall|t: int|
                0 <= t < n ==> {
                    let e0 = #[trigger] old(enemies)@[t];
                    let e1 = enemies@[t];
                    &&& e1.position == e0.position
                    &&& e1.direction == e0.direction
                    &&& (t >= k ==> e1 == e0)
                    &&& (!e0.is_alive ==> !e1.is_alive)
                    &&& ((e0.is_alive && !e1.is_alive) ==> group_hit(
                        pos0,
                        directions@,
                        bs as int,
                        be as int,
                        mag,
                        e0,
                        *bullet_collider,
                        *enemy_collider,
                    ))
                },
        decreases n - k,
    {
        let e = enemies[k];
        proof {
            assert(enemy_wf(old(enemies)@[k as int]));
            assert(e.position == old(enemies)@[k as int].position);
            assert(enemy_wf(e));
        }
        if e.is_alive && !(use_aabb && !bb.contains_point(e.position)) {
            if any_bullet_hits(
                positions,
                directions,
                bs,
                be,
                &e,
                bullet_collider,
                enemy_collider,
            ) {
                proof {
                    let j = choose|j: int|
                        bs <= j < be && hits(
                            (#[trigger] positions@[j])@,
                            directions@[j]@,
                            e,
                            *bullet_collider,
                            *enemy_collider,
                        );
                    assert(positions@[j]@ == moved_v3(pos0[j]@, directions@[j]@, mag));
                    assert(group_hit(
                        pos0,
                        directions@,
                        bs as int,
                        be as int,
                        mag,
                        e,
                        *bullet_collider,
                        *enemy_collider,
                    ));
                }
                enemies.set(
                    k,
                    Enemy { position: e.position, direction: e.direction, is_alive: false },
                );
            }
        }
        k = k + 1;
    }
}

/// End of the bullet range covered by the first `sub` sub-groups of a
/// volley: equal slices, the last absorbing the remainder.
pub open spec fn processed_bound(gstart: int, gsize: int, ss: int, num: int, sub: int) -> int {
    if sub >= num {
        gstart + gsize
    } else {
        gstart + sub * ss
    }
}

/// Integrates and collision-tests one live volley, sub-group by sub-group:
/// each slice of bullets is moved, a bounding box is built over the slice
/// and inflated by the maximum collision distance, and every still-alive
/// enemy inside the box is tested against the slice's bullets, dying on the
/// first hit.
fn process_live_group(
    positions: &mut Vec<Vec3>,
    directions: &Vec<Vec3>,
    enemies: &mut Vec<Enemy>,
    gstart: usize,
    gsize: usize,
    num_sub_groups: usize,
    use_aabb: bool,
    max_dist: i64,
    delta_mag: i64,
    bullet_collider: &Capsule,
    enemy_collider: &Capsule,
    Ghost(headroom): Ghost<int>,
)
    requires
        gstart + gsize <= old(positions)@.len(),
        directions@.len() == old(positions)@.len(),
        1 <= num_sub_groups <= 9,
        gsize <= 0x10000,
        0 <= delta_mag <= 0x100000000,
        0 <= max_dist <= 2048,
        headroom >= 0,
        headroom + delta_mag <= POS_LIMIT as int,
        bullet_collider.wf(),
        enemy_collider.wf(),
        forall|j: int|
            gstart <= j < gstart + gsize ==> v3_bounded(
                (#[trigger] old(positions)@[j])@,
                headroom,
            ),
        forall|j: int|
            0 <= j < directions@.len() ==> v3_bounded(
                (#[trigger] directions@[j])@,
                DIR_SCALE as int,
            ),
        forall|k: int| 0 <= k < old(enemies)@.len() ==> enemy_wf(#[trigger] old(enemies)@[k]),
    ensures
        final(positions)@.len() == old(positions)@.len(),
        forall|j: int|
            gstart <= j < gstart + gsize ==> (#[trigger] final(positions)@[j])@ == moved_v3(
                old(positions)@[j]@,
                directions@[j]@,
                delta_mag as int,
            ) && v3_bounded(final(positions)@[j]@, headroom + delta_mag),
        forall|j: int|
            0 <= j < old(positions)@.len() && !(gstart <= j < gstart + gsize)
                ==> final(positions)@[j] == old(positions)@[j],
        final(enemies)@.len() == old(enemies)@.len(),
        forall|k: int|
            0 <= k < old(enemies)@.len() ==> {
                let e0 = #[trigger] old(enemies)@[k];
                let e1 = final(enemies)@[k];
                &&& e1.position == e0.position
                &&& e1.direction == e0.direction
                &&& (!e0.is_alive ==> !e1.is_alive)
                &&& ((e0.is_alive && !e1.is_alive) ==> group_hit(
                    old(positions)@,
                    directions@,
                    gstart as int,
                    gstart + gsize,
                    delta_mag as int,
                    e0,
                    *bullet_collider,
                    *enemy_collider,
                ))
            },
{
    let plen: usize = positions.len();
    proof {
        assert(positions@.len() == plen);
    }
    let sub_size: usize = gsize / num_sub_groups;
    proof {
        broadcast use vstd::arithmetic::div_mod::lemma_fundamental_div_mod;
        broadcast use vstd::arithmetic::div_mod::lemma_mod_division_less_than_divisor;
        broadcast use vstd::arithmetic::div_mod::lemma_div_pos_is_pos;

        assert(num_sub_groups * sub_size <= gsize) by (nonlinear_arith)
            requires
                sub_size == gsize as int / num_sub_groups as int,
                1 <= num_sub_groups <= 9,
                0 <= gsize,
        ;
    }
    let mut sub: usize = 0;
    while sub < num_sub_groups
        invariant
            0 <= sub <= num_sub_groups,
            1 <= num_sub_groups <= 9,
            sub_size == gsize as int / num_sub_groups as int,
            num_sub_groups * sub_size <= gsize,
            gsize <= 0x10000,
            gstart + gsize <= positions@.len(),
            positions@.len() == plen,
            positions@.len() == old(positions)@.len(),
            directions@.len() == old(positions)@.len(),
            0 <= delta_mag <= 0x100000000,
            0 <= max_dist <= 2048,
            headroom >= 0,
            headroom + delta_mag <= POS_LIMIT as int,
            bullet_collider.wf(),
            enemy_collider.wf(),
            forall|j: int|
                gstart <= j < gstart + gsize ==> v3_bounded(
                    (#[trigger] old(positions)@[j])@,
                    headroom,
                ),
            forall|j: int|
                0 <= j < directions@.len() ==> v3_bounded(
                    (#[trigger] directions@[j])@,
                    DIR_SCALE as int,
                ),
            forall|j: int|
                gstart <= j < processed_bound(
                    gstart as int,
                    gsize as int,
                    sub_size as int,
                    num_sub_groups as int,
                    sub as int,
                ) ==> (#[trigger] positions@[j])@ == moved_v3(
                    old(positions)@[j]@,
                    directions@[j]@,
                    delta_mag as int,
                ) && v3_bounded(positions@[j]@, headroom + delta_mag),
            forall|j: int|
                0 <= j < positions@.len() && !(gstart <= j < processed_bound(
                    gstart as int,
                    gsize as int,
                    sub_size as int,
                    num_sub_groups as int,
                    sub as int,
                )) ==> positions@[j] == old(positions)@[j],
            enemies@.len() == old(enemies)@.len(),
            forall|k: int| 0 <= k < old(enemies)@.len() ==> enemy_wf(#[trigger] old(enemies)@[k]),
            forall|k: int|
                0 <= k < old(enemies)@.len() ==> {
                    let e0 = #[trigger] old(enemies)@[k];
                    let e1 = enemies@[k];
                    &&& e1.position == e0.position
                    &&& e1.direction == e0.direction
                    &&& (!e0.is_alive ==> !e1.is_alive)
                    &&& ((e0.is_alive && !e1.is_alive) ==> group_hit(
                        old(positions)@,
                        directions@,
                        gstart as int,
                        processed_bound(
                            gstart as int,
                            gsize as int,
                            sub_size as int,
                            num_sub_groups as int,
                            sub as int,
                        ),
                        delta_mag as int,
                        e0,
                        *bullet_collider,
                        *enemy_collider,
                    ))
                },
        decreases num_sub_groups - sub,
    {
        proof {
            assert(sub * sub_size <= num_sub_groups * sub_size && (sub + 1) * sub_size
                <= num_sub_groups * sub_size && sub * sub_size + sub_size == (sub + 1) * sub_size)
                by (nonlinear_arith)
                requires
                    0 <= sub < num_sub_groups && 0 <= sub_size,
            ;
        }
        let bs_rel: usize = sub * sub_size;
        proof {
            assert(bs_rel <= gsize);
        }
        let be_rel: usize = if sub == num_sub_groups - 1 {
            gsize
        } else {
            bs_rel + sub_size
        };
        proof {
            assert(bs_rel <= be_rel <= gsize);
        }
        let bs: usize = gstart + bs_rel;
        let be: usize = gstart + be_rel;
        let ghost pb0 = processed_bound(
            gstart as int,
            gsize as int,
            sub_size as int,
            num_sub_groups as int,
            sub as int,
        );
        let ghost pb1 = processed_bound(
            gstart as int,
            gsize as int,
            sub_size as int,
            num_sub_groups as int,
            sub as int + 1,
        );
        proof {
            assert(bs == pb0);
            assert(be == pb1);
            assert(bs_rel <= be_rel <= gsize);
        }
        integrate_range(positions, directions, bs, be, delta_mag, Ghost(headroom));
        proof {
            assert forall|k: int| 0 <= k < enemies@.len() implies enemy_wf(
                #[trigger] enemies@[k],
            ) by {
                assert(enemy_wf(old(enemies)@[k]));
                assert(enemies@[k].position == old(enemies)@[k].position);
                assert(enemies@[k].direction == old(enemies)@[k].direction);
            }
        }
        if use_aabb {
            let mut bb = build_subgroup_aabb(positions, bs, be, Ghost(headroom + delta_mag));
            bb.expand_by(max_dist);
            collide_subgroup(
                positions,
                directions,
                bs,
                be,
                enemies,
                &bb,
                true,
                bullet_collider,
                enemy_collider,
                Ghost(old(positions)@),
                Ghost(delta_mag as int),
            );
        } else {
            let bb = Aabb::new();
            collide_subgroup(
                positions,
                directions,
                bs,
                be,
                enemies,
                &bb,
                false,
                bullet_collider,
                enemy_collider,
                Ghost(old(positions)@),
                Ghost(delta_mag as int),
            );
        }
        proof {
            assert forall|j: int|
                gstart <= j < pb1 implies (#[trigger] positions@[j])@ == moved_v3(
                old(positions)@[j]@,
                directions@[j]@,
                delta_mag as int,
            ) && v3_bounded(positions@[j]@, headroom + delta_mag) by {
                if j < pb0 {
                } else {
                    assert(bs <= j < be);
                }
            }
            assert forall|j: int|
                0 <= j < positions@.len() && !(gstart <= j < pb1) implies positions@[j] == old(
                positions,
            )@[j] by {
                assert(!(bs <= j < be));
            }
            assert forall|k: int|
                0 <= k < old(enemies)@.len() implies {
                let e0 = #[trigger] old(enemies)@[k];
                let e1 = enemies@[k];
                &&& e1.position == e0.position
                &&& e1.direction == e0.direction
                &&& (!e0.is_alive ==> !e1.is_alive)
                &&& ((e0.is_alive && !e1.is_alive) ==> group_hit(
                    old(positions)@,
                    directions@,
                    gstart as int,
                    pb1,
                    delta_mag as int,
                    e0,
                    *bullet_collider,
                    *enemy_collider,
                ))
            } by {
                let e0 = old(enemies)@[k];
                let e1 = enemies@[k];
                if e0.is_alive && !e1.is_alive {
                    if group_hit(
                        old(positions)@,
                        directions@,
                        gstart as int,
                        pb0,
                        delta_mag as int,
                        e0,
                        *bullet_collider,
                        *enemy_collider,
                    ) {
                        let j = choose|j: int|
                            gstart <= j < pb0 && hits(
                                moved_v3(
                                    (#[trigger] old(positions)@[j])@,
                                    directions@[j]@,
                                    delta_mag as int,
                                ),
                                directions@[j]@,
                                e0,
                                *bullet_collider,
                                *enemy_collider,
                            );
                        assert(gstart <= j < pb1);
                    } else if group_hit(
                        old(positions)@,
                        directions@,
                        bs as int,
                        be as int,
                        delta_mag as int,
                        e0,
                        *bullet_collider,
                        *enemy_collider,
                    ) {
                        let j = choose|j: int|
                            bs <= j < be && hits(
                                moved_v3(
                                    (#[trigger] old(positions)@[j])@,
                                    directions@[j]@,
                                    delta_mag as int,
                                ),
                                directions@[j]@,
                                e0,
                                *bullet_collider,
                                *enemy_collider,
                            );
                        assert(gstart <= j < pb1);
                    }
                }
            }
        }
        sub = sub + 1;
    }
}

/// Removes the first `n` entries of a buffer in one pass.
fn drop_prefix<T: Copy>(v: &mut Vec<T>, n: usize)
    requires
        n <= old(v)@.len(),
    ensures
        final(v)@ == old(v)@.subrange(n as int, old(v)@.len() as int),
{
    let len = v.len();
    let mut out: Vec<T> = Vec::new();
    let mut j: usize = n;
    while j < len
        invariant
            n <= j <= len,
            v@ == old(v)@,
            len == v@.len(),
            out@ == v@.subrange(n as int, j as int),
        decreases len - j,
    {
        out.push(v[j]);
        j = j + 1;
        proof {
            assert(out@ =~= v@.subrange(n as int, j as int));
        }
    }
    proof {
        assert(out@ =~= old(v)@.subrange(n as int, old(v)@.len() as int));
    }
    *v = out;
}

/// Drops the first `k` volleys and shifts every survivor's start index back
/// by the dropped bullet count.
fn retire_groups(groups: &mut Vec<BulletGroup>, k: usize, dropped: usize)
    requires
        k <= old(groups)@.len(),
        forall|i: int|
            k <= i < old(groups)@.len() ==> (#[trigger] old(groups)@[i]).start_index >= dropped,
    ensures
        final(groups)@.len() == old(groups)@.len() - k,
        forall|i: int|
            0 <= i < final(groups)@.len() ==> (#[trigger] final(groups)@[i]) == (BulletGroup {
                start_index: (old(groups)@[k + i].start_index - dropped) as usize,
                group_size: old(groups)@[k + i].group_size,
                time_to_live: old(groups)@[k + i].time_to_live,
            }),
{
    let len = groups.len();
    let mut out: Vec<BulletGroup> = Vec::new();
    let mut j: usize = k;
    while j < len
        invariant
            k <= j <= len,
            groups@ == old(groups)@,
            len == groups@.len(),
            forall|i: int|
                k <= i < len ==> (#[trigger] groups@[i]).start_index >= dropped,
            out@.len() == j - k,
            forall|i: int|
                0 <= i < out@.len() ==> (#[trigger] out@[i]) == (BulletGroup {
                    start_index: (groups@[k + i].start_index - dropped) as usize,
                    group_size: groups@[k + i].group_size,
                    time_to_live: groups@[k + i].time_to_live,
                }),
        decreases len - j,
    {
        let g = groups[j];
        out.push(
            BulletGroup {
                start_index: g.start_index - dropped,
                group_size: g.group_size,
                time_to_live: g.time_to_live,
            },
        );
        j = j + 1;
    }
    *groups = out;
}

/// Earlier volleys own earlier index ranges.
proof fn lemma_range_le(s: BulletSystem, i: int, j: int)
    requires
        s.groups_contiguous(),
        0 <= i < j < s.bullet_groups@.len(),
    ensures
        s.bullet_groups@[i].start_index + s.bullet_groups@[i].group_size
            <= s.bullet_groups@[j].start_index,
    decreases j - i,
{
    assert(s.bullet_groups@[i + 1].start_index == s.bullet_groups@[i].start_index
        + s.bullet_groups@[i].group_size);
    if i + 1 < j {
        lemma_range_le(s, i + 1, j);
    }
}

/// Every bullet index from `start` of volley `i0` up to the end of the
/// buffers belongs to some volley at or after `i0`.
proof fn lemma_index_in_group(s: BulletSystem, j: int, i0: int)
    requires
        s.groups_contiguous(),
        0 <= i0 < s.bullet_groups@.len(),
        s.bullet_groups@[i0].start_index <= j < s.total_bullets(),
    ensures
        exists|i: int|
            i0 <= i < s.bullet_groups@.len() && (#[trigger] s.bullet_groups@[i]).start_index <= j
                < s.bullet_groups@[i].start_index + s.bullet_groups@[i].group_size,
    decreases s.bullet_groups@.len() - i0,
{
    let g = s.bullet_groups@[i0];
    if j < g.start_index + g.group_size {
        assert(g.start_index <= j < g.start_index + g.group_size);
    } else {
        assert(i0 + 1 < s.bullet_groups@.len()) by {
            lemma_group_range_within_total(s, i0);
        }
        assert(s.bullet_groups@[i0 + 1].start_index == g.start_index + g.group_size);
        lemma_index_in_group(s, j, i0 + 1);
    }
}

/// Every group's index range lies inside the buffers.
proof fn lemma_group_range_within_total(s: BulletSystem, i: int)
    requires
        s.groups_contiguous(),
        0 <= i < s.bullet_groups@.len(),
    ensures
        s.bullet_groups@[i].start_index + s.bullet_groups@[i].group_size <= s.total_bullets(),
        i > 0 ==> s.bullet_groups@[i].start_index >= s.bullet_groups@[i - 1].start_index
            + s.bullet_groups@[i - 1].group_size,
    decreases s.bullet_groups@.len() - i,
{
    if i > 0 {
        assert(s.bullet_groups@[(i - 1) + 1].start_index == s.bullet_groups@[i - 1].start_index
            + s.bullet_groups@[i - 1].group_size);
    }
    if i + 1 < s.bullet_groups@.len() {
        assert(s.bullet_groups@[i + 1].start_index == s.bullet_groups@[i].start_index
            + s.bullet_groups@[i].group_size);
        lemma_group_range_within_total(s, i + 1);
    }
}

} // verus!
