use vstd::prelude::*;

verus! {

/// Where a camera-space point lies against the near plane `z = near_z`.
#[derive(Clone, Copy, Debug, PartialEq, Eq, Structural)]
pub enum Side {
    /// `z < near_z`: hidden, to be clipped away.
    Behind,
    /// `z > near_z`.
    Visible,
    /// Neither: on the plane itself (or not comparable).
    OnPlane,
}

/// A corner of a clipped face.
#[derive(Clone, Copy, Debug, PartialEq, Eq, Structural)]
pub enum Corner {
    /// The face's own vertex at this index.
    Vertex(usize),
    /// The point where the edge from the hidden vertex at the first index to its visible
    /// neighbour at the second index crosses the near plane.
    Cut(usize, usize),
}

pub open spec fn prev_of(n: int, k: int) -> int {
    if k == 0 {
        n - 1
    } else {
        k - 1
    }
}

pub open spec fn next_of(n: int, k: int) -> int {
    if k + 1 == n {
        0
    } else {
        k + 1
    }
}

/// What the vertex `k` of a face becomes: itself where it is not behind the plane; else one
/// cut towards each of its two neighbours that is visible, the previous one first.
pub open spec fn corner_out(sides: Seq<Side>, k: int) -> Seq<Corner> {
    let n = sides.len() as int;
    if sides[k] != Side::Behind {
        seq![Corner::Vertex(k as usize)]
    } else {
        let p = prev_of(n, k);
        let q = next_of(n, k);
        (if sides[p] == Side::Visible {
            seq![Corner::Cut(k as usize, p as usize)]
        } else {
            Seq::empty()
        }) + (if sides[q] == Side::Visible {
            seq![Corner::Cut(k as usize, q as usize)]
        } else {
            Seq::empty()
        })
    }
}

/// The corners that the first `m` vertices become, in order.
pub open spec fn clipped_prefix(sides: Seq<Side>, m: int) -> Seq<Corner>
    decreases m,
{
    if m <= 0 {
        Seq::empty()
    } else {
        clipped_prefix(sides, m - 1) + corner_out(sides, m - 1)
    }
}

/// The face whose vertices lie on `sides`, clipped against the near plane.
pub open spec fn clipped(sides: Seq<Side>) -> Seq<Corner> {
    clipped_prefix(sides, sides.len() as int)
}

/// Whether a corner is a vertex in front of the plane. A cut lies on the plane.
pub open spec fn corner_visible(sides: Seq<Side>, c: Corner) -> bool {
    match c {
        Corner::Vertex(k) => sides[k as int] == Side::Visible,
        Corner::Cut(_, _) => false,
    }
}

/// The original vertices from `k` on, not yet walked.
pub open spec fn unwalked(n: int, k: int) -> Seq<Corner> {
    Seq::new((n - k) as nat, |t: int| Corner::Vertex((k + t) as usize))
}

/// What the walk needs of the corners already produced: the last one is visible exactly when
/// the last vertex walked is, and is that vertex then; the first likewise of vertex 0; and
/// where nothing was produced, the vertices around the walked ones are not visible.
proof fn lemma_prefix_ends(sides: Seq<Side>, m: int)
    requires
        1 <= m <= sides.len() <= usize::MAX,
    ensures
        clipped_prefix(sides, m).len() > 0 ==> (corner_visible(sides, clipped_prefix(sides, m).last())
            <==> sides[m - 1] == Side::Visible),
        clipped_prefix(sides, m).len() > 0 && corner_visible(sides, clipped_prefix(sides, m).last())
            ==> clipped_prefix(sides, m).last() == Corner::Vertex((m - 1) as usize),
        clipped_prefix(sides, m).len() > 0 ==> (corner_visible(sides, clipped_prefix(sides, m)[0])
            <==> sides[0] == Side::Visible),
        clipped_prefix(sides, m).len() > 0 && corner_visible(sides, clipped_prefix(sides, m)[0])
            ==> clipped_prefix(sides, m)[0] == Corner::Vertex(0),
        clipped_prefix(sides, m).len() == 0 ==> sides[0] == Side::Behind,
        clipped_prefix(sides, m).len() == 0 ==> sides[m - 1] == Side::Behind,
        clipped_prefix(sides, m).len() == 0 ==> sides[sides.len() - 1] != Side::Visible,
        clipped_prefix(sides, m).len() == 0 ==> sides[next_of(sides.len() as int, m - 1)]
            != Side::Visible,
    decreases m,
{
    let n = sides.len() as int;
    if m > 1 {
        lemma_prefix_ends(sides, m - 1);
    }
    let a = clipped_prefix(sides, m - 1);
    let o = corner_out(sides, m - 1);
    let p = clipped_prefix(sides, m);
    assert(p == a + o);
    if sides[m - 1] != Side::Behind {
        assert(o =~= seq![Corner::Vertex((m - 1) as usize)]);
        assert(p.last() == o[0]);
        if a.len() > 0 {
            assert(p[0] == a[0]);
        } else {
            assert(p[0] == o[0]);
        }
    } else {
        assert forall|t: int| 0 <= t < o.len() implies !corner_visible(sides, #[trigger] o[t]) by {
            assert(o[t] is Cut);
        }
        if o.len() > 0 {
            assert(p.last() == o[o.len() - 1]);
        } else {
            assert(p =~= a);
        }
        if a.len() > 0 {
            assert(p[0] == a[0]);
        } else if o.len() > 0 {
            assert(p[0] == o[0]);
        }
    }
}

proof fn lemma_prefix_vertices(sides: Seq<Side>, m: int)
    requires
        0 <= m <= sides.len(),
    ensures
        forall|t: int|
            0 <= t < clipped_prefix(sides, m).len() ==> match #[trigger] clipped_prefix(
                sides,
                m,
            )[t] {
                Corner::Vertex(k) => k < m,
                Corner::Cut(k, j) => k < m && j < sides.len(),
            },
    decreases m,
{
    if m > 0 {
        lemma_prefix_vertices(sides, m - 1);
        let a = clipped_prefix(sides, m - 1);
        let o = corner_out(sides, m - 1);
        assert(clipped_prefix(sides, m) == a + o);
    }
}

fn is_behind(sides: &Vec<Side>, c: Corner) -> (r: bool)
    requires
        match c {
            Corner::Vertex(k) => k < sides@.len(),
            Corner::Cut(_, _) => true,
        },
    ensures
        r == match c {
            Corner::Vertex(k) => sides@[k as int] == Side::Behind,
            Corner::Cut(_, _) => false,
        },
{
    match c {
        Corner::Vertex(k) => sides[k] == Side::Behind,
        Corner::Cut(_, _) => false,
    }
}

fn is_visible(sides: &Vec<Side>, c: Corner) -> (r: bool)
    requires
        match c {
            Corner::Vertex(k) => k < sides@.len(),
            Corner::Cut(_, _) => true,
        },
    ensures
        r == corner_visible(sides@, c),
{
    match c {
        Corner::Vertex(k) => sides[k] == Side::Visible,
        Corner::Cut(_, _) => false,
    }
}

/// Clips a face against the near plane, given the side of each of its vertices. Walks the
/// vertices in order; each one behind the plane is replaced, in place, by the cut towards each
/// visible neighbour (none, one or two), and the walk goes on after what was spliced in.
#[verifier::rlimit(60)]
pub fn clip_corners(sides: &Vec<Side>) -> (out: Vec<Corner>)
    ensures
        out@ == clipped(sides@),
{
    let n = sides.len();
    let mut verts: Vec<Corner> = Vec::new();
    let mut t: usize = 0;
    while t < n
        invariant
            0 <= t <= n,
            n == sides@.len(),
            verts@ == Seq::new(t as nat, |u: int| Corner::Vertex(u as usize)),
        decreases n - t,
    {
        verts.push(Corner::Vertex(t));
        t = t + 1;
    }
    assert(verts@ =~= clipped_prefix(sides@, 0) + unwalked(n as int, 0));
    let ghost mut k: int = 0;
    let mut i: usize = 0;
    while i < verts.len()
        invariant
            0 <= k <= n,
            n == sides@.len(),
            i == clipped_prefix(sides@, k).len(),
            verts@ == clipped_prefix(sides@, k) + unwalked(n as int, k),
        decreases n - k,
    {
        let ghost p = clipped_prefix(sides@, k);
        assert(k < n);
        assert(verts@[i as int] == Corner::Vertex(k as usize));
        proof {
            lemma_prefix_vertices(sides@, k);
            if k > 0 {
                lemma_prefix_ends(sides@, k);
            }
        }
        let v = verts[i];
        let kv: usize = match v {
            Corner::Vertex(a) => a,
            Corner::Cut(a, _) => a,
        };
        if is_behind(sides, v) {
            let len = verts.len();
            let l = if i == 0 {
                verts[len - 1]
            } else {
                verts[i - 1]
            };
            let r = verts[(i + 1) % len];
            proof {
                if i == 0 {
                    assert(l == Corner::Vertex((n - 1) as usize));
                } else {
                    assert(l == p.last());
                }
                if i + 1 < len {
                    vstd::arithmetic::div_mod::lemma_small_mod((i + 1) as nat, len as nat);
                    assert(verts@[i + 1] == unwalked(n as int, k)[1]);
                    assert(r == Corner::Vertex((k + 1) as usize));
                } else if i > 0 {
                    vstd::arithmetic::div_mod::lemma_mod_self_0(len as int);
                    assert(r == p[0]);
                } else {
                    vstd::arithmetic::div_mod::lemma_mod_self_0(len as int);
                    assert(r == Corner::Vertex(k as usize));
                }
            }
            let mut cuts: Vec<Corner> = Vec::new();
            if is_visible(sides, l) {
                if let Corner::Vertex(j) = l {
                    cuts.push(Corner::Cut(kv, j));
                }
            }
            if is_visible(sides, r) {
                if let Corner::Vertex(j) = r {
                    cuts.push(Corner::Cut(kv, j));
                }
            }
            assert(cuts@ =~= corner_out(sides@, k));
            verts.remove(i);
            let mut c: usize = 0;
            while c < cuts.len()
                invariant
                    c <= cuts@.len(),
                    cuts@.len() <= 2,
                    k < n,
                    n == sides@.len(),
                    i == p.len(),
                    verts@ == p + cuts@.subrange(0, c as int) + unwalked(n as int, k + 1),
                decreases cuts@.len() - c,
            {
                assert(verts@.len() == i + c + (n - k - 1));
                let vl = verts.len();
                assert(i + c <= vl);
                verts.insert(i + c, cuts[c]);
                c = c + 1;
            }
            assert(verts@.len() == i + cuts@.len() + (n - k - 1));
            let vl = verts.len();
            assert(i + cuts@.len() <= vl);
            i = i + cuts.len();
            proof {
                k = k + 1;
            }
        } else {
            i = i + 1;
            proof {
                k = k + 1;
            }
        }
    }
    verts
}

/// Fewest corners that a face keeps to be drawn.
pub const MIN_FACE_CORNERS: usize = 3;

/// Clips a face against the near plane; `None` where fewer than `MIN_FACE_CORNERS` corners
/// are left, and the face is dropped.
pub fn clip_face(sides: &Vec<Side>) -> (r: Option<Vec<Corner>>)
    ensures
        r is Some <==> clipped(sides@).len() >= MIN_FACE_CORNERS,
        r matches Some(c) ==> c@ == clipped(sides@),
{
    let c = clip_corners(sides);
    if c.len() >= MIN_FACE_CORNERS {
        Some(c)
    } else {
        None
    }
}

proof fn lemma_prefix_uniform(sides: Seq<Side>, m: int)
    requires
        0 <= m <= sides.len() <= usize::MAX,
    ensures
        (forall|t: int| 0 <= t < sides.len() ==> #[trigger] sides[t] == Side::Behind)
            ==> clipped_prefix(sides, m).len() == 0,
        (forall|t: int| 0 <= t < sides.len() ==> #[trigger] sides[t] == Side::Visible)
            ==> clipped_prefix(sides, m) == unwalked(m, 0),
    decreases m,
{
    if m > 0 {
        lemma_prefix_uniform(sides, m - 1);
        let n = sides.len() as int;
        assert(clipped_prefix(sides, m) == clipped_prefix(sides, m - 1) + corner_out(sides, m - 1));
        if forall|t: int| 0 <= t < sides.len() ==> #[trigger] sides[t] == Side::Behind {
            assert(sides[prev_of(n, m - 1)] == Side::Behind);
            assert(sides[next_of(n, m - 1)] == Side::Behind);
            assert(corner_out(sides, m - 1).len() == 0);
        }
        if forall|t: int| 0 <= t < sides.len() ==> #[trigger] sides[t] == Side::Visible {
            assert(clipped_prefix(sides, m) =~= unwalked(m, 0));
        }
    }
}

/// A face wholly behind the near plane is clipped to nothing, and so dropped; a face wholly in
/// front of it keeps each of its vertices, in order.
pub proof fn lemma_clip_totality(sides: Seq<Side>)
    requires
        sides.len() <= usize::MAX,
    ensures
        (forall|t: int| 0 <= t < sides.len() ==> #[trigger] sides[t] == Side::Behind)
            ==> clipped(sides).len() == 0,
        (forall|t: int| 0 <= t < sides.len() ==> #[trigger] sides[t] == Side::Visible)
            ==> clipped(sides) == Seq::new(sides.len(), |t: int| Corner::Vertex(t as usize)),
{
    lemma_prefix_uniform(sides, sides.len() as int);
    if forall|t: int| 0 <= t < sides.len() ==> #[trigger] sides[t] == Side::Visible {
        assert(unwalked(sides.len() as int, 0) =~= Seq::new(
            sides.len(),
            |t: int| Corner::Vertex(t as usize),
        ));
    }
}

} // verus!
