use vstd::prelude::*;

verus! {

/// Hundredths in one world unit: positions and angles are kept at this precision.
pub const CENTI: i64 = 100;

/// A pair of coordinates, in hundredths.
#[derive(Clone, Copy, Debug, PartialEq, Eq, Structural)]
pub struct Double {
    pub x: i64,
    pub y: i64,
}

/// A point of the world or of camera space, in hundredths of a world unit.
#[derive(Clone, Copy, Debug, PartialEq, Eq, Structural)]
pub struct Triple {
    pub x: i64,
    pub y: i64,
    pub z: i64,
}

/// An axis-aligned unit cube: eight corners, six faces of four corner indices, one RGBA color
/// per face.
#[derive(Clone, Copy, Debug)]
pub struct Cube {
    pub verts: [Triple; 8],
    pub faces: [[u8; 4]; 6],
    pub colors: [[u8; 4]; 6],
}

/// Largest magnitude of a cube center coordinate, so that every corner fits.
pub const COORD_LIMIT: i64 = 2_000_000_000_000_000_000;

pub open spec fn triple(x: int, y: int, z: int) -> Triple {
    Triple { x: x as i64, y: y as i64, z: z as i64 }
}

/// The corners of the unit cube centered at `(x, y, z)`, half a unit from the center on each
/// axis.
pub open spec fn cube_corners(x: int, y: int, z: int) -> Seq<Triple> {
    seq![
        triple(x - 50, y - 50, z - 50),
        triple(x + 50, y - 50, z - 50),
        triple(x + 50, y + 50, z - 50),
        triple(x - 50, y + 50, z - 50),
        triple(x - 50, y - 50, z + 50),
        triple(x + 50, y - 50, z + 50),
        triple(x + 50, y + 50, z + 50),
        triple(x - 50, y + 50, z + 50),
    ]
}

/// The face table that every cube carries.
pub open spec fn cube_faces() -> Seq<Seq<u8>> {
    seq![
        seq![0u8, 1, 2, 0],
        seq![0u8, 5, 6, 0],
        seq![0u8, 1, 5, 0],
        seq![0u8, 3, 7, 0],
        seq![0u8, 3, 7, 0],
        seq![0u8, 2, 6, 0],
    ]
}

/// Opaque green, the color of every face.
pub open spec fn face_color() -> Seq<u8> {
    seq![0u8, 255, 0, 255]
}

/// `c` is the cube centered at `(x, y, z)`.
pub open spec fn is_cube_at(c: Cube, x: int, y: int, z: int) -> bool {
    &&& c.verts@ == cube_corners(x, y, z)
    &&& c.faces@.len() == 6
    &&& forall|f: int| 0 <= f < 6 ==> #[trigger] c.faces@[f]@ == cube_faces()[f]
    &&& c.colors@.len() == 6
    &&& forall|f: int| 0 <= f < 6 ==> #[trigger] c.colors@[f]@ == face_color()
}

/// Builds the cube centered at `p`.
pub fn init_cube(p: Triple) -> (c: Cube)
    requires
        -COORD_LIMIT <= p.x <= COORD_LIMIT,
        -COORD_LIMIT <= p.y <= COORD_LIMIT,
        -COORD_LIMIT <= p.z <= COORD_LIMIT,
    ensures
        is_cube_at(c, p.x as int, p.y as int, p.z as int),
{
    let h: i64 = CENTI / 2;
    let verts = [
        Triple { x: p.x - h, y: p.y - h, z: p.z - h },
        Triple { x: p.x + h, y: p.y - h, z: p.z - h },
        Triple { x: p.x + h, y: p.y + h, z: p.z - h },
        Triple { x: p.x - h, y: p.y + h, z: p.z - h },
        Triple { x: p.x - h, y: p.y - h, z: p.z + h },
        Triple { x: p.x + h, y: p.y - h, z: p.z + h },
        Triple { x: p.x + h, y: p.y + h, z: p.z + h },
        Triple { x: p.x - h, y: p.y + h, z: p.z + h },
    ];
    let green: [u8; 4] = [0, 255, 0, 255];
    let c = Cube {
        verts,
        faces: [[0, 1, 2, 0], [0, 5, 6, 0], [0, 1, 5, 0], [0, 3, 7, 0], [0, 3, 7, 0], [0, 2, 6, 0]],
        colors: [green, green, green, green, green, green],
    };
    assert(c.verts@ =~= cube_corners(p.x as int, p.y as int, p.z as int));
    assert(c.faces@[0]@ =~= cube_faces()[0]);
    assert(c.faces@[1]@ =~= cube_faces()[1]);
    assert(c.faces@[2]@ =~= cube_faces()[2]);
    assert(c.faces@[3]@ =~= cube_faces()[3]);
    assert(c.faces@[4]@ =~= cube_faces()[4]);
    assert(c.faces@[5]@ =~= cube_faces()[5]);
    assert(green@ =~= face_color());
    c
}

} // verus!
