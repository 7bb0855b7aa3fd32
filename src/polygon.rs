//! Polygons given by the coordinates of their vertices.
use vstd::prelude::*;
use crate::draw::DrawCmd;
use crate::geometry::Point;
use crate::style::Color;

verus! {

pub open spec fn clamp_i16(v: int) -> i16 {
    if v < -32768 {
        i16::MIN
    } else if v > 32767 {
        i16::MAX
    } else {
        v as i16
    }
}

fn to_i16(v: i64) -> (r: i16)
    ensures
        r == clamp_i16(v as int),
{
    if v < -32768 {
        i16::MIN
    } else if v > 32767 {
        i16::MAX
    } else {
        v as i16
    }
}

/// The smallest element of a non-empty `s`.
pub open spec fn seq_min(s: Seq<i16>) -> i16
    decreases s.len(),
{
    if s.len() <= 1 {
        s[0]
    } else {
        let m = seq_min(s.subrange(0, s.len() - 1));
        if s[s.len() - 1] < m {
            s[s.len() - 1]
        } else {
            m
        }
    }
}

/// The largest element of a non-empty `s`.
pub open spec fn seq_max(s: Seq<i16>) -> i16
    decreases s.len(),
{
    if s.len() <= 1 {
        s[0]
    } else {
        let m = seq_max(s.subrange(0, s.len() - 1));
        if s[s.len() - 1] > m {
            s[s.len() - 1]
        } else {
            m
        }
    }
}

/// The extremes of the vertex coordinates, and the extents between them
/// (kept under the name `center`, which shrinking compares against).
pub open spec fn details_of(vx: Seq<i16>, vy: Seq<i16>) -> (Point, (i16, i16), (i16, i16)) {
    (
        Point {
            x: (seq_max(vx) - seq_min(vx)) as i32,
            y: (seq_max(vy) - seq_min(vy)) as i32,
        },
        (seq_min(vx), seq_max(vx)),
        (seq_min(vy), seq_max(vy)),
    )
}

/// `v` moved by `amount` toward `c`: down when above it, up otherwise.
pub open spec fn moved_toward(v: i16, c: i32, amount: i16) -> i16 {
    if v > c {
        clamp_i16(v - amount)
    } else {
        clamp_i16(v + amount)
    }
}

/// Vertex `i` of `p` after shrinking by `amount`: a vertex at an x extreme
/// moves in x, any other moves in y.
pub open spec fn shrunk_vertex(p: Polygon, i: int, amount: i16) -> (i16, i16) {
    if p.vx@[i] == p.extreme_x.0 || p.vx@[i] == p.extreme_x.1 {
        (moved_toward(p.vx@[i], p.center.x, amount), p.vy@[i])
    } else {
        (p.vx@[i], moved_toward(p.vy@[i], p.center.y, amount))
    }
}

#[derive(Debug, PartialEq, Eq)]
pub struct Polygon {
    pub vx: Vec<i16>,
    pub vy: Vec<i16>,
    pub extreme_x: (i16, i16),
    pub extreme_y: (i16, i16),
    pub center: Point,
}

impl Polygon {
    /// A polygon of the given vertices, its details computed.
    pub fn new(vx: Vec<i16>, vy: Vec<i16>) -> (p: Polygon)
        requires
            vx@.len() == vy@.len(),
            vx@.len() > 0,
        ensures
            p.vx == vx,
            p.vy == vy,
            (p.center, p.extreme_x, p.extreme_y) == details_of(vx@, vy@),
    {
        let (center, extreme_x, extreme_y) = Polygon::get_details(&vx, &vy);
        assert(vy@.subrange(0, vx@.len() as int) =~= vy@);
        Polygon { vx, vy, extreme_x, extreme_y, center }
    }

    /// A polygon whose details are already known.
    pub fn detailed(vx: Vec<i16>, vy: Vec<i16>, extreme_x: (i16, i16), extreme_y: (i16, i16), center: Point) -> (p: Polygon)
        requires
            vx@.len() == vy@.len(),
        ensures
            p == (Polygon { vx, vy, extreme_x, extreme_y, center }),
    {
        Polygon { vx, vy, extreme_x, extreme_y, center }
    }

    /// The extremes of the coordinates and the extents between them; `vy`
    /// is read as far as `vx` reaches.
    pub fn get_details(vx: &Vec<i16>, vy: &Vec<i16>) -> (r: (Point, (i16, i16), (i16, i16)))
        requires
            vy@.len() >= vx@.len(),
            vx@.len() > 0,
        ensures
            r == details_of(vx@, vy@.subrange(0, vx@.len() as int)),
    {
        let mut ex = (vx[0], vx[0]);
        let mut ey = (vy[0], vy[0]);
        let n = vx.len();
        let mut i: usize = 1;
        proof {
            assert(vx@.subrange(0, 1).len() == 1);
        }
        while i < n
            invariant
                n == vx@.len(),
                n <= vy@.len(),
                1 <= i <= n,
                ex == (seq_min(vx@.subrange(0, i as int)), seq_max(vx@.subrange(0, i as int))),
                ey == (seq_min(vy@.subrange(0, i as int)), seq_max(vy@.subrange(0, i as int))),
            decreases n - i,
        {
            if vx[i] < ex.0 {
                ex.0 = vx[i];
            }
            if vx[i] > ex.1 {
                ex.1 = vx[i];
            }
            if vy[i] < ey.0 {
                ey.0 = vy[i];
            }
            if vy[i] > ey.1 {
                ey.1 = vy[i];
            }
            proof {
                let k = i as int;
                assert(vx@.subrange(0, k + 1).subrange(0, k) =~= vx@.subrange(0, k));
                assert(vy@.subrange(0, k + 1).subrange(0, k) =~= vy@.subrange(0, k));
            }
            i += 1;
        }
        proof {
            assert(vx@.subrange(0, n as int) =~= vx@);
        }
        let center = Point::new(ex.1 as i32 - ex.0 as i32, ey.1 as i32 - ey.0 as i32);
        (center, ex, ey)
    }

    /// A polygon through `points`, coordinates limited to the `i16` range;
    /// an empty one has zero details.
    pub fn from_points(points: Vec<Point>) -> (p: Polygon)
        ensures
            p.vx@.len() == points@.len(),
            p.vy@.len() == points@.len(),
            forall|i: int|
                0 <= i < points@.len() ==> p.vx@[i] == clamp_i16(points@[i].x as int) && p.vy@[i]
                    == clamp_i16(points@[i].y as int),
            points@.len() > 0 ==> (p.center, p.extreme_x, p.extreme_y) == details_of(p.vx@, p.vy@),
            points@.len() == 0 ==> p.center == (Point { x: 0, y: 0 }) && p.extreme_x == (0i16, 0i16)
                && p.extreme_y == (0i16, 0i16),
    {
        let mut vx: Vec<i16> = Vec::new();
        let mut vy: Vec<i16> = Vec::new();
        let n = points.len();
        let mut i: usize = 0;
        while i < n
            invariant
                n == points@.len(),
                0 <= i <= n,
                vx@.len() == i,
                vy@.len() == i,
                forall|j: int|
                    0 <= j < i ==> vx@[j] == clamp_i16(points@[j].x as int) && vy@[j] == clamp_i16(
                        points@[j].y as int,
                    ),
            decreases n - i,
        {
            vx.push(to_i16(points[i].x as i64));
            vy.push(to_i16(points[i].y as i64));
            i += 1;
        }
        if n == 0 {
            return Polygon { vx, vy, extreme_x: (0, 0), extreme_y: (0, 0), center: Point::new(0, 0) };
        }
        Polygon::new(vx, vy)
    }

    /// Moves each vertex by `amount` toward the extents point: vertices at
    /// an x extreme in x, the others in y.
    pub fn shrink(&mut self, amount: i16)
        requires
            old(self).vx@.len() == old(self).vy@.len(),
        ensures
            final(self).vx@.len() == old(self).vx@.len(),
            final(self).vy@.len() == old(self).vy@.len(),
            forall|i: int|
                0 <= i < old(self).vx@.len() ==> (final(self).vx@[i], final(self).vy@[i]) == shrunk_vertex(
                    *old(self),
                    i,
                    amount,
                ),
            final(self).extreme_x == old(self).extreme_x,
            final(self).extreme_y == old(self).extreme_y,
            final(self).center == old(self).center,
    {
        let n = self.vx.len();
        let mut i: usize = 0;
        while i < n
            invariant
                n == old(self).vx@.len(),
                self.vx@.len() == n,
                self.vy@.len() == n,
                0 <= i <= n,
                forall|j: int| i <= j < n ==> self.vx@[j] == old(self).vx@[j] && self.vy@[j] == old(self).vy@[j],
                forall|j: int|
                    0 <= j < i ==> (self.vx@[j], self.vy@[j]) == shrunk_vertex(*old(self), j, amount),
                self.extreme_x == old(self).extreme_x,
                self.extreme_y == old(self).extreme_y,
                self.center == old(self).center,
            decreases n - i,
        {
            let v = self.vx[i];
            if v == self.extreme_x.0 || v == self.extreme_x.1 {
                let m = if v as i32 > self.center.x {
                    to_i16(v as i64 - amount as i64)
                } else {
                    to_i16(v as i64 + amount as i64)
                };
                self.vx.set(i, m);
            } else {
                let w = self.vy[i];
                let m = if w as i32 > self.center.y {
                    to_i16(w as i64 - amount as i64)
                } else {
                    to_i16(w as i64 + amount as i64)
                };
                self.vy.set(i, m);
            }
            i += 1;
        }
    }

    /// Whether `cmd` draws this polygon in `color`, filled or not.
    pub open spec fn drawn_by(self, cmd: DrawCmd, color: Color, filled: bool) -> bool {
        cmd matches DrawCmd::Polygon { vx, vy, color: c, filled: f } && vx@ == self.vx@ && vy@
            == self.vy@ && c == color && f == filled
    }

    /// Appends the command that draws the polygon, filled or as an outline.
    pub fn draw(&self, color: Color, filled: bool, out: &mut Vec<DrawCmd>)
        ensures
            final(out)@.len() == old(out)@.len() + 1,
            final(out)@.drop_last() == old(out)@,
            self.drawn_by(final(out)@.last(), color, filled),
    {
        let mut vx: Vec<i16> = Vec::new();
        let mut vy: Vec<i16> = Vec::new();
        let n = self.vx.len();
        let mut i: usize = 0;
        while i < n
            invariant
                n == self.vx@.len(),
                0 <= i <= n,
                vx@ == self.vx@.subrange(0, i as int),
            decreases n - i,
        {
            vx.push(self.vx[i]);
            proof {
                assert(vx@ =~= self.vx@.subrange(0, i as int + 1));
            }
            i += 1;
        }
        let m = self.vy.len();
        let mut j: usize = 0;
        while j < m
            invariant
                m == self.vy@.len(),
                0 <= j <= m,
                vy@ == self.vy@.subrange(0, j as int),
            decreases m - j,
        {
            vy.push(self.vy[j]);
            proof {
                assert(vy@ =~= self.vy@.subrange(0, j as int + 1));
            }
            j += 1;
        }
        proof {
            assert(vx@ =~= self.vx@);
            assert(vy@ =~= self.vy@);
        }
        out.push(DrawCmd::Polygon { vx, vy, color, filled });
        assert(out@.drop_last() =~= old(out)@);
    }
}

} // verus!
