//! Triangles and meshes.
//!
//! A triangle carries three homogeneous vertices and an optional shading
//! color, assigned during the lighting stage; a mesh is an ordered list
//! of triangles whose back-to-front depth sort drives the painter's
//! algorithm.

use vstd::prelude::*;

use vstd::multiset::Multiset;

use crate::errors::RenderError;
use crate::fixed::{div_t, FX_ONE};
use crate::matrices::{lift3, mat_bounded, xform_fits, xform_w, xform_x, xform_y, xform_z, Matrix4x4};
use crate::vectors::{t_cross, t_norm, t_of, vec3_bounded, Vec3, Vec4};

verus! {

/// Vertices handed to `normal` must stay within this bound so that the
/// edge cross product fits in an `i64`.
pub const VERT_LIMIT: i64 = 0x20_0000_0000;

/// An 8-bit RGB color.
#[derive(Clone, Copy, Debug, PartialEq, Eq, Structural)]
pub struct Color {
    pub r: u8,
    pub g: u8,
    pub b: u8,
}

/// A 3D triangle: three vertices and an optional color. The color is
/// `None` until the shading stage assigns one.
#[derive(Clone, Copy, Debug, PartialEq)]
pub struct Tri {
    pub p0: Vec4,
    pub p1: Vec4,
    pub p2: Vec4,
    pub c: Option<Color>,
}

/// A mesh: an ordered sequence of triangles.
#[derive(Clone, Debug)]
pub struct Mesh {
    pub tris: Vec<Tri>,
}

/// The first edge of a triangle (second vertex minus first), exactly.
pub open spec fn tri_edge1(t: Tri) -> (int, int, int) {
    (t.p1.x - t.p0.x, t.p1.y - t.p0.y, t.p1.z - t.p0.z)
}

/// The second edge of a triangle (third vertex minus first), exactly.
pub open spec fn tri_edge2(t: Tri) -> (int, int, int) {
    (t.p2.x - t.p0.x, t.p2.y - t.p0.y, t.p2.z - t.p0.z)
}

/// The rounded cross product of the two edges: the unnormalized normal.
pub open spec fn tri_cross(t: Tri) -> (int, int, int) {
    t_cross(tri_edge1(t), tri_edge2(t))
}

/// A triangle is degenerate when its edge cross product rounds to zero:
/// no normal direction can be assigned to it.
pub open spec fn tri_degenerate(t: Tri) -> bool {
    tri_cross(t) == (0int, 0int, 0int)
}

/// The x, y and z coordinates of all three vertices bounded by `c`.
pub open spec fn tri_xyz_bounded(t: Tri, c: int) -> bool {
    &&& -c <= t.p0.x <= c && -c <= t.p0.y <= c && -c <= t.p0.z <= c
    &&& -c <= t.p1.x <= c && -c <= t.p1.y <= c && -c <= t.p1.z <= c
    &&& -c <= t.p2.x <= c && -c <= t.p2.y <= c && -c <= t.p2.z <= c
}

/// The depth-sort key of a triangle: the sum of the vertices' `z`. It
/// orders triangles exactly as their average `z` does.
pub open spec fn depth_key(t: Tri) -> int {
    t.p0.z + t.p1.z + t.p2.z
}

/// Back-to-front order: depth keys are non-increasing, so the farthest
/// triangle comes first.
pub open spec fn sorted_back_to_front(s: Seq<Tri>) -> bool {
    forall|i: int, j: int| 0 <= i < j < s.len() ==> #[trigger] depth_key(s[i]) >= #[trigger] depth_key(s[j])
}

impl Tri {
    /// A triangle from three vertices with a color already assigned.
    pub fn new(p1: Vec4, p2: Vec4, p3: Vec4, color: Color) -> (r: Self)
        ensures
            r.p0 == p1 && r.p1 == p2 && r.p2 == p3,
            r.c == Some(color),
    {
        Self { p0: p1, p1: p2, p2: p3, c: Some(color) }
    }

    /// A triangle from nine object-space coordinates, with `w` set to 1
    /// and no color yet.
    pub fn from_coords(
        x0: i64,
        y0: i64,
        z0: i64,
        x1: i64,
        y1: i64,
        z1: i64,
        x2: i64,
        y2: i64,
        z2: i64,
    ) -> (r: Self)
        ensures
            r.p0 == (Vec4 { x: x0, y: y0, z: z0, w: FX_ONE }),
            r.p1 == (Vec4 { x: x1, y: y1, z: z1, w: FX_ONE }),
            r.p2 == (Vec4 { x: x2, y: y2, z: z2, w: FX_ONE }),
            r.c == None::<Color>,
    {
        Self {
            p0: Vec4 { x: x0, y: y0, z: z0, w: FX_ONE },
            p1: Vec4 { x: x1, y: y1, z: z1, w: FX_ONE },
            p2: Vec4 { x: x2, y: y2, z: z2, w: FX_ONE },
            c: None,
        }
    }

    /// The unit normal of the triangle's plane: the normalized cross
    /// product of its two edges, so the winding order of the vertices
    /// picks its sign. Degenerate triangles are excluded: their normal
    /// has no direction.
    pub fn normal(&self) -> (r: Vec3)
        requires
            tri_xyz_bounded(*self, VERT_LIMIT as int),
            !tri_degenerate(*self),
        ensures
            (r.x as int, r.y as int, r.z as int) == t_norm(tri_cross(*self)),
            vec3_bounded(r, 131072),
    {
        let line1 = Vec3 { x: self.p1.x - self.p0.x, y: self.p1.y - self.p0.y, z: self.p1.z - self.p0.z };
        let line2 = Vec3 { x: self.p2.x - self.p0.x, y: self.p2.y - self.p0.y, z: self.p2.z - self.p0.z };
        proof {
            crate::vectors::lemma_cross_bound(line1, line2, 0x40_0000_0000, 0x40_0000_0000);
        }
        let mut n = line1.cross(&line2);
        proof {
            assert(t_of(n) == tri_cross(*self));
            crate::vectors::lemma_nonzero_mag_sq(n);
        }
        n.normalize();
        n
    }

    /// The centroid of the triangle: the average of its three vertices,
    /// used only as the depth-sort key, not as a physical center.
    pub fn midpoint(&self) -> (r: Vec3)
        requires
            tri_xyz_bounded(*self, 0x2000_0000_0000_0000),
        ensures
            r.x as int == div_t(self.p0.x + self.p1.x + self.p2.x, 3),
            r.y as int == div_t(self.p0.y + self.p1.y + self.p2.y, 3),
            r.z as int == div_t(self.p0.z + self.p1.z + self.p2.z, 3),
    {
        let sx: i64 = self.p0.x + self.p1.x + self.p2.x;
        let sy: i64 = self.p0.y + self.p1.y + self.p2.y;
        let sz: i64 = self.p0.z + self.p1.z + self.p2.z;
        Vec3 { x: sx / 3, y: sy / 3, z: sz / 3 }
    }

    /// The triangle with `m` applied to every vertex; the color is kept.
    pub fn transform(&self, m: &Matrix4x4) -> (r: Self)
        requires
            mat_bounded(*m, 0x4000_0000_0000_0000),
            crate::matrices::vec4_bounded(self.p0, 0x4000_0000_0000_0000),
            crate::matrices::vec4_bounded(self.p1, 0x4000_0000_0000_0000),
            crate::matrices::vec4_bounded(self.p2, 0x4000_0000_0000_0000),
            xform_fits(*m, self.p0),
            xform_fits(*m, self.p1),
            xform_fits(*m, self.p2),
        ensures
            r.p0.x as int == xform_x(*m, self.p0) && r.p0.y as int == xform_y(*m, self.p0)
                && r.p0.z as int == xform_z(*m, self.p0) && r.p0.w as int == xform_w(*m, self.p0),
            r.p1.x as int == xform_x(*m, self.p1) && r.p1.y as int == xform_y(*m, self.p1)
                && r.p1.z as int == xform_z(*m, self.p1) && r.p1.w as int == xform_w(*m, self.p1),
            r.p2.x as int == xform_x(*m, self.p2) && r.p2.y as int == xform_y(*m, self.p2)
                && r.p2.z as int == xform_z(*m, self.p2) && r.p2.w as int == xform_w(*m, self.p2),
            r.c == self.c,
    {
        Self { p0: m.apply(&self.p0), p1: m.apply(&self.p1), p2: m.apply(&self.p2), c: self.c }
    }

    /// The triangle translated by a 3D offset; `w` and the color are kept.
    pub fn translate(&self, v: &Vec3) -> (r: Self)
        requires
            i64::MIN <= self.p0.x + v.x <= i64::MAX && i64::MIN <= self.p0.y + v.y <= i64::MAX
                && i64::MIN <= self.p0.z + v.z <= i64::MAX,
            i64::MIN <= self.p1.x + v.x <= i64::MAX && i64::MIN <= self.p1.y + v.y <= i64::MAX
                && i64::MIN <= self.p1.z + v.z <= i64::MAX,
            i64::MIN <= self.p2.x + v.x <= i64::MAX && i64::MIN <= self.p2.y + v.y <= i64::MAX
                && i64::MIN <= self.p2.z + v.z <= i64::MAX,
        ensures
            r.p0.x == self.p0.x + v.x && r.p0.y == self.p0.y + v.y && r.p0.z == self.p0.z + v.z
                && r.p0.w == self.p0.w,
            r.p1.x == self.p1.x + v.x && r.p1.y == self.p1.y + v.y && r.p1.z == self.p1.z + v.z
                && r.p1.w == self.p1.w,
            r.p2.x == self.p2.x + v.x && r.p2.y == self.p2.y + v.y && r.p2.z == self.p2.z + v.z
                && r.p2.w == self.p2.w,
            r.c == self.c,
    {
        Self {
            p0: Vec4 { x: self.p0.x + v.x, y: self.p0.y + v.y, z: self.p0.z + v.z, w: self.p0.w },
            p1: Vec4 { x: self.p1.x + v.x, y: self.p1.y + v.y, z: self.p1.z + v.z, w: self.p1.w },
            p2: Vec4 { x: self.p2.x + v.x, y: self.p2.y + v.y, z: self.p2.z + v.z, w: self.p2.w },
            c: self.c,
        }
    }
}

/// The depth key of `t`, computed without overflow.
fn depth_key_exec(t: &Tri) -> (r: i128)
    ensures
        r as int == depth_key(*t),
{
    (t.p0.z as i128) + (t.p1.z as i128) + (t.p2.z as i128)
}

impl Mesh {
    /// A mesh from a list of triangles, in their given order.
    pub fn new(tris: Vec<Tri>) -> (r: Self)
        ensures
            r.tris == tris,
    {
        Self { tris }
    }

    /// Builds a mesh from a vertex list and faces of three vertex
    /// indices, as a mesh file provides them. Every index is checked
    /// first: a face that refers past the vertex list is reported as
    /// `MalformedMeshReference` instead of being indexed out of bounds.
    pub fn from_indexed(vertices: &Vec<Vec3>, faces: &Vec<(usize, usize, usize)>) -> (r: Result<
        Self,
        RenderError,
    >)
        ensures
            (exists|k: int|
                0 <= k < faces@.len() && !(faces@[k].0 < vertices@.len() && faces@[k].1
                    < vertices@.len() && faces@[k].2 < vertices@.len())) <==> (r == Err::<
                Mesh,
                RenderError,
            >(RenderError::MalformedMeshReference)),
            (forall|k: int|
                0 <= k < faces@.len() ==> ((#[trigger] faces@[k]).0 < vertices@.len() && faces@[k].1
                    < vertices@.len() && faces@[k].2 < vertices@.len())) ==> (r matches Ok(mesh)
                && mesh.tris@.len() == faces@.len() && forall|k: int|
                0 <= k < faces@.len() ==> #[trigger] mesh.tris@[k] == (Tri {
                    p0: lift3(vertices@[faces@[k].0 as int]),
                    p1: lift3(vertices@[faces@[k].1 as int]),
                    p2: lift3(vertices@[faces@[k].2 as int]),
                    c: None,
                })),
    {
        let mut tris: Vec<Tri> = Vec::new();
        let mut i: usize = 0;
        while i < faces.len()
            invariant
                0 <= i <= faces@.len(),
                tris@.len() == i,
                forall|k: int|
                    0 <= k < i ==> (faces@[k].0 < vertices@.len() && faces@[k].1 < vertices@.len()
                        && faces@[k].2 < vertices@.len()),
                forall|k: int|
                    0 <= k < i ==> #[trigger] tris@[k] == (Tri {
                        p0: lift3(vertices@[faces@[k].0 as int]),
                        p1: lift3(vertices@[faces@[k].1 as int]),
                        p2: lift3(vertices@[faces@[k].2 as int]),
                        c: None,
                    }),
            decreases faces@.len() - i,
        {
            let (a, b, c) = faces[i];
            if !(a < vertices.len() && b < vertices.len() && c < vertices.len()) {
                return Err(RenderError::MalformedMeshReference);
            }
            let va = vertices[a];
            let vb = vertices[b];
            let vc = vertices[c];
            tris.push(
                Tri {
                    p0: Vec4 { x: va.x, y: va.y, z: va.z, w: FX_ONE },
                    p1: Vec4 { x: vb.x, y: vb.y, z: vb.z, w: FX_ONE },
                    p2: Vec4 { x: vc.x, y: vc.y, z: vc.z, w: FX_ONE },
                    c: None,
                },
            );
            i += 1;
        }
        Ok(Self { tris })
    }

    /// Sorts the triangles back to front by the sum (equivalently the
    /// average) of their vertices' `z`: farthest first, as the painter's
    /// algorithm draws them. The triangles are only reordered; ties may
    /// fall either way.
    pub fn sort(&mut self)
        ensures
            sorted_back_to_front(final(self).tris@),
            final(self).tris@.to_multiset() == old(self).tris@.to_multiset(),
            final(self).tris@.len() == old(self).tris@.len(),
    {
        broadcast use vstd::seq_lib::group_to_multiset_ensures;

        let mut out: Vec<Tri> = Vec::new();
        while self.tris.len() > 0
            invariant
                out@.to_multiset().add(self.tris@.to_multiset()) =~= old(self).tris@.to_multiset(),
                sorted_back_to_front(out@),
                forall|a: int, b: int|
                    (0 <= a < out@.len() && 0 <= b < self.tris@.len()) ==> #[trigger] depth_key(
                        out@[a],
                    ) >= #[trigger] depth_key(self.tris@[b]),
                out@.len() + self.tris@.len() == old(self).tris@.len(),
            decreases self.tris@.len(),
        {
            let mut best: usize = 0;
            let mut idx: usize = 1;
            while idx < self.tris.len()
                invariant
                    0 <= best < self.tris@.len(),
                    best < idx <= self.tris@.len() || (best == 0 && idx <= self.tris@.len()),
                    self.tris@.len() > 0,
                    forall|k: int|
                        0 <= k < idx ==> depth_key(self.tris@[best as int]) >= #[trigger] depth_key(
                            self.tris@[k],
                        ),
                decreases self.tris@.len() - idx,
            {
                if depth_key_exec(&self.tris[idx]) > depth_key_exec(&self.tris[best]) {
                    best = idx;
                }
                idx += 1;
            }
            let ghost prev_out = out@;
            let ghost prev_rem = self.tris@;
            let t = self.tris.remove(best);
            out.push(t);
            proof {
                prev_out.to_multiset_ensures();
                prev_rem.to_multiset_ensures();
                assert(prev_rem.contains(prev_rem[best as int]));
                assert(out@ == prev_out.push(t));
                assert(self.tris@ == prev_rem.remove(best as int));
                assert(out@.to_multiset() =~= prev_out.to_multiset().insert(t));
                assert(self.tris@.to_multiset() =~= prev_rem.to_multiset().remove(t));
                assert(out@.to_multiset().add(self.tris@.to_multiset()) =~= prev_out.to_multiset()
                    .add(prev_rem.to_multiset()));
                assert(forall|b: int|
                    0 <= b < self.tris@.len() ==> depth_key(t) >= #[trigger] depth_key(
                        self.tris@[b],
                    )) by {
                    assert(forall|b: int|
                        0 <= b < self.tris@.len() ==> #[trigger] self.tris@[b] == (if b < best {
                            prev_rem[b]
                        } else {
                            prev_rem[b + 1]
                        }));
                }
            }
        }
        proof {
            assert(self.tris@.to_multiset() =~= Multiset::<Tri>::empty());
            assert(out@.to_multiset() =~= old(self).tris@.to_multiset());
        }
        self.tris = out;
    }
}

/// Back-to-front order of the sum keys is back-to-front order of the
/// average depths too: after `sort`, the sequence of average `z` values
/// is monotonically non-increasing, farthest first.
pub proof fn lemma_sorted_averages(s: Seq<Tri>)
    requires
        sorted_back_to_front(s),
    ensures
        forall|i: int, j: int|
            0 <= i < j < s.len() ==> #[trigger] div_t(depth_key(s[i]), 3) >= #[trigger] div_t(
                depth_key(s[j]),
                3,
            ),
{
    assert forall|i: int, j: int| 0 <= i < j < s.len() implies #[trigger] div_t(
        depth_key(s[i]),
        3,
    ) >= #[trigger] div_t(depth_key(s[j]), 3) by {
        crate::fixed::lemma_div_t_ordered(depth_key(s[j]), depth_key(s[i]), 3);
    }
}

} // verus!
