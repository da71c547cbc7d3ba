use vstd::prelude::*;
use crate::geometry::{init_cube, is_cube_at, Cube, Triple, CENTI, COORD_LIMIT};

verus! {

/// Side of a chunk, in world columns.
pub const CHUNK_SIZE: i64 = 6;

/// Scale from a noise value to a column height.
pub const CHUNK_HEIGHT: i64 = 10;

/// Divisor from a column coordinate to a noise sample coordinate.
pub const PERLIN_SOFTENER: i64 = 15;

/// Radius, in chunks, of the square window of chunks around the camera's chunk.
pub const CHUNK_RENDER_DIST: i64 = 1;

/// Seed of the world's noise.
pub const SEED: u32 = 91224;

/// Side of a chunk, in hundredths of a world unit.
pub const CHUNK_SPAN: i64 = 600;

/// Chunks along one side of the window.
pub const WINDOW: i64 = 3;

/// Columns in one chunk.
pub const CHUNK_COLUMNS: i64 = 36;

/// Columns in one x-row of chunks of the window.
pub const WINDOW_ROW_COLUMNS: i64 = 108;

/// Cubes in the visible set.
pub const VISIBLE_CUBES: i64 = 324;

/// Largest magnitude of a position, in hundredths, that the generator accepts.
pub const POS_LIMIT: i64 = 1_000_000_000_000_000_000;

/// Largest magnitude of the chunk of a position within `POS_LIMIT`.
pub const CHUNK_LIMIT: i64 = 1_666_666_666_666_667;

/// Floor division of a position, in hundredths of a unit, by the chunk size.
pub open spec fn chunk_of_spec(p: int) -> int {
    p / CHUNK_SPAN as int
}

/// The chunk that holds a position given in hundredths of a world unit.
pub fn chunk_of(p: i64) -> (r: i64)
    ensures
        r == chunk_of_spec(p as int),
        -POS_LIMIT <= p <= POS_LIMIT ==> -CHUNK_LIMIT <= r <= CHUNK_LIMIT,
{
    if p >= 0 {
        p / CHUNK_SPAN
    } else {
        -((-(p + 1)) / CHUNK_SPAN) - 1
    }
}

/// A column sampler is pure: one column gives one height.
pub open spec fn is_pure_sampler<F: Fn(i64, i64) -> u8>(sample: F) -> bool {
    forall|x: i64, z: i64, a: u8, b: u8|
        #[trigger] sample.ensures((x, z), a) && #[trigger] sample.ensures((x, z), b) ==> a == b
}

/// A sampler may be called on every column.
pub open spec fn is_total_sampler<F: Fn(i64, i64) -> u8>(sample: F) -> bool {
    forall|x: i64, z: i64| #[trigger] sample.requires((x, z))
}

/// The height that `sample` gives the column `(x, z)`.
pub open spec fn height_at<F: Fn(i64, i64) -> u8>(sample: F, x: int, z: int) -> u8 {
    choose|h: u8| #[trigger] sample.ensures((x as i64, z as i64), h)
}

proof fn lemma_height_at<F: Fn(i64, i64) -> u8>(sample: F, x: i64, z: i64, h: u8)
    requires
        is_pure_sampler(sample),
        sample.ensures((x, z), h),
    ensures
        height_at(sample, x as int, z as int) == h,
{
}

/// Samples the heights of chunk `(chunk_x, chunk_y)`: row `x`, entry `z` is the height of the
/// column `(chunk_x * CHUNK_SIZE + x, chunk_y * CHUNK_SIZE + z)`.
pub fn load_chunk<F: Fn(i64, i64) -> u8>(chunk_x: i64, chunk_y: i64, sample: &F) -> (chunk: Vec<
    Vec<u8>,
>)
    requires
        -POS_LIMIT <= chunk_x <= POS_LIMIT / CHUNK_SIZE,
        -POS_LIMIT <= chunk_y <= POS_LIMIT / CHUNK_SIZE,
        is_total_sampler(*sample),
    ensures
        chunk@.len() == CHUNK_SIZE,
        forall|x: int| 0 <= x < CHUNK_SIZE ==> (#[trigger] chunk@[x])@.len() == CHUNK_SIZE,
        forall|x: int, z: int|
            0 <= x < CHUNK_SIZE && 0 <= z < CHUNK_SIZE ==> sample.ensures(
                ((chunk_x * CHUNK_SIZE + x) as i64, (chunk_y * CHUNK_SIZE + z) as i64),
                #[trigger] chunk@[x]@[z],
            ),
{
    let mut chunk: Vec<Vec<u8>> = Vec::new();
    let mut x: i64 = 0;
    while x < CHUNK_SIZE
        invariant
            0 <= x <= CHUNK_SIZE,
            -POS_LIMIT <= chunk_x <= POS_LIMIT / CHUNK_SIZE,
            -POS_LIMIT <= chunk_y <= POS_LIMIT / CHUNK_SIZE,
            is_total_sampler(*sample),
            chunk@.len() == x,
            forall|a: int| 0 <= a < x ==> (#[trigger] chunk@[a])@.len() == CHUNK_SIZE,
            forall|a: int, b: int|
                0 <= a < x && 0 <= b < CHUNK_SIZE ==> sample.ensures(
                    ((chunk_x * CHUNK_SIZE + a) as i64, (chunk_y * CHUNK_SIZE + b) as i64),
                    #[trigger] chunk@[a]@[b],
                ),
        decreases CHUNK_SIZE - x,
    {
        let mut row: Vec<u8> = Vec::new();
        let mut z: i64 = 0;
        while z < CHUNK_SIZE
            invariant
                0 <= x < CHUNK_SIZE,
                0 <= z <= CHUNK_SIZE,
                -POS_LIMIT <= chunk_x <= POS_LIMIT / CHUNK_SIZE,
                -POS_LIMIT <= chunk_y <= POS_LIMIT / CHUNK_SIZE,
                is_total_sampler(*sample),
                row@.len() == z,
                forall|b: int|
                    0 <= b < z ==> sample.ensures(
                        ((chunk_x * CHUNK_SIZE + x) as i64, (chunk_y * CHUNK_SIZE + b) as i64),
                        #[trigger] row@[b],
                    ),
            decreases CHUNK_SIZE - z,
        {
            let h = sample(chunk_x * CHUNK_SIZE + x, chunk_y * CHUNK_SIZE + z);
            row.push(h);
            z = z + 1;
        }
        chunk.push(row);
        x = x + 1;
    }
    chunk
}

/// Column x of the `k`-th cube of the visible set around chunk `(cx, cz)`: chunks run x-major,
/// then z, then the columns of a chunk run x-major.
pub open spec fn column_x(cx: int, k: int) -> int {
    (cx - CHUNK_RENDER_DIST + k / WINDOW_ROW_COLUMNS as int) * CHUNK_SIZE + (k / CHUNK_SIZE as int) % CHUNK_SIZE as int
}

/// Column z of the `k`-th cube of the visible set around chunk `(cx, cz)`.
pub open spec fn column_z(cz: int, k: int) -> int {
    (cz - CHUNK_RENDER_DIST + (k / CHUNK_COLUMNS as int) % WINDOW as int) * CHUNK_SIZE + k % CHUNK_SIZE as int
}

/// `cubes` is the visible set around the chunk `(cx, cz)`: one cube per column of each chunk
/// of the window, standing at the height that `sample` gives its column.
pub open spec fn is_visible_set<F: Fn(i64, i64) -> u8>(
    sample: F,
    cx: int,
    cz: int,
    cubes: Seq<Cube>,
) -> bool {
    &&& cubes.len() == VISIBLE_CUBES
    &&& forall|k: int|
        0 <= k < VISIBLE_CUBES ==> is_cube_at(
            #[trigger] cubes[k],
            column_x(cx, k) * CENTI,
            height_at(sample, column_x(cx, k), column_z(cz, k)) * CENTI,
            column_z(cz, k) * CENTI,
        )
}

proof fn lemma_flat_index(i: int, j: int, lx: int, lz: int)
    requires
        0 <= i < WINDOW,
        0 <= j < WINDOW,
        0 <= lx < CHUNK_SIZE,
        0 <= lz < CHUNK_SIZE,
    ensures
        ({
            let k = i * WINDOW_ROW_COLUMNS + j * CHUNK_COLUMNS + lx * CHUNK_SIZE + lz;
            &&& k / WINDOW_ROW_COLUMNS as int == i
            &&& (k / CHUNK_COLUMNS as int) % WINDOW as int == j
            &&& (k / CHUNK_SIZE as int) % CHUNK_SIZE as int == lx
            &&& k % CHUNK_SIZE as int == lz
        }),
{
}

/// The visible set around the position `pos`, given in hundredths: every chunk within
/// `CHUNK_RENDER_DIST` of the position's chunk, each column standing at its sampled height.
pub fn generate_cubes<F: Fn(i64, i64) -> u8>(pos: Triple, sample: &F) -> (cubes: Vec<Cube>)
    requires
        -POS_LIMIT <= pos.x <= POS_LIMIT,
        -POS_LIMIT <= pos.z <= POS_LIMIT,
        is_total_sampler(*sample),
        is_pure_sampler(*sample),
    ensures
        is_visible_set(*sample, chunk_of_spec(pos.x as int), chunk_of_spec(pos.z as int), cubes@),
{
    let chunk_x = chunk_of(pos.x);
    let chunk_y = chunk_of(pos.z);
    let ghost cx = chunk_x as int;
    let ghost cz = chunk_y as int;
    let mut cubes: Vec<Cube> = Vec::new();
    let mut i: i64 = 0;
    while i < WINDOW
        invariant
            0 <= i <= WINDOW,
            cx == chunk_x && cz == chunk_y,
            -CHUNK_LIMIT <= cx <= CHUNK_LIMIT && -CHUNK_LIMIT <= cz <= CHUNK_LIMIT,
            cx == chunk_of_spec(pos.x as int) && cz == chunk_of_spec(pos.z as int),
            -POS_LIMIT <= pos.x <= POS_LIMIT,
            -POS_LIMIT <= pos.z <= POS_LIMIT,
            is_total_sampler(*sample),
            is_pure_sampler(*sample),
            cubes@.len() == i * WINDOW_ROW_COLUMNS,
            forall|k: int|
                0 <= k < cubes@.len() ==> is_cube_at(
                    #[trigger] cubes@[k],
                    column_x(cx, k) * CENTI,
                    height_at(*sample, column_x(cx, k), column_z(cz, k)) * CENTI,
                    column_z(cz, k) * CENTI,
                ),
        decreases WINDOW - i,
    {
        let mut j: i64 = 0;
        while j < WINDOW
            invariant
                0 <= i < WINDOW,
                0 <= j <= WINDOW,
                cx == chunk_x && cz == chunk_y,
                -CHUNK_LIMIT <= cx <= CHUNK_LIMIT && -CHUNK_LIMIT <= cz <= CHUNK_LIMIT,
            -CHUNK_LIMIT <= cx <= CHUNK_LIMIT && -CHUNK_LIMIT <= cz <= CHUNK_LIMIT,
                cx == chunk_of_spec(pos.x as int) && cz == chunk_of_spec(pos.z as int),
                -POS_LIMIT <= pos.x <= POS_LIMIT,
                -POS_LIMIT <= pos.z <= POS_LIMIT,
                is_total_sampler(*sample),
                is_pure_sampler(*sample),
                cubes@.len() == i * WINDOW_ROW_COLUMNS + j * CHUNK_COLUMNS,
                forall|k: int|
                    0 <= k < cubes@.len() ==> is_cube_at(
                        #[trigger] cubes@[k],
                        column_x(cx, k) * CENTI,
                        height_at(*sample, column_x(cx, k), column_z(cz, k)) * CENTI,
                        column_z(cz, k) * CENTI,
                    ),
            decreases WINDOW - j,
        {
            let ch_x = chunk_x - CHUNK_RENDER_DIST + i;
            let ch_y = chunk_y - CHUNK_RENDER_DIST + j;
            let chunk = load_chunk(ch_x, ch_y, sample);
            let mut lx: usize = 0;
            while lx < chunk.len()
                invariant
                    0 <= i < WINDOW,
                    0 <= j < WINDOW,
                    0 <= lx <= CHUNK_SIZE,
                    ch_x == cx - CHUNK_RENDER_DIST + i,
                    ch_y == cz - CHUNK_RENDER_DIST + j,
                    -CHUNK_LIMIT <= cx <= CHUNK_LIMIT && -CHUNK_LIMIT <= cz <= CHUNK_LIMIT,
                    cx == chunk_of_spec(pos.x as int) && cz == chunk_of_spec(pos.z as int),
                    -POS_LIMIT <= pos.x <= POS_LIMIT,
                    -POS_LIMIT <= pos.z <= POS_LIMIT,
                    is_pure_sampler(*sample),
                    chunk@.len() == CHUNK_SIZE,
                    forall|x: int| 0 <= x < CHUNK_SIZE ==> (#[trigger] chunk@[x])@.len() == CHUNK_SIZE,
                    forall|x: int, z: int|
                        0 <= x < CHUNK_SIZE && 0 <= z < CHUNK_SIZE ==> sample.ensures(
                            ((ch_x * CHUNK_SIZE + x) as i64, (ch_y * CHUNK_SIZE + z) as i64),
                            #[trigger] chunk@[x]@[z],
                        ),
                    cubes@.len() == i * WINDOW_ROW_COLUMNS + j * CHUNK_COLUMNS + lx * CHUNK_SIZE,
                    forall|k: int|
                        0 <= k < cubes@.len() ==> is_cube_at(
                            #[trigger] cubes@[k],
                            column_x(cx, k) * CENTI,
                            height_at(*sample, column_x(cx, k), column_z(cz, k)) * CENTI,
                            column_z(cz, k) * CENTI,
                        ),
                decreases CHUNK_SIZE - lx,
            {
                let mut lz: usize = 0;
                while lz < chunk[lx].len()
                    invariant
                        0 <= i < WINDOW,
                        0 <= j < WINDOW,
                        0 <= lx < CHUNK_SIZE,
                        0 <= lz <= CHUNK_SIZE,
                        ch_x == cx - CHUNK_RENDER_DIST + i,
                        ch_y == cz - CHUNK_RENDER_DIST + j,
                        -CHUNK_LIMIT <= cx <= CHUNK_LIMIT && -CHUNK_LIMIT <= cz <= CHUNK_LIMIT,
                    -CHUNK_LIMIT <= cx <= CHUNK_LIMIT && -CHUNK_LIMIT <= cz <= CHUNK_LIMIT,
                        cx == chunk_of_spec(pos.x as int) && cz == chunk_of_spec(pos.z as int),
                        -POS_LIMIT <= pos.x <= POS_LIMIT,
                        -POS_LIMIT <= pos.z <= POS_LIMIT,
                        is_pure_sampler(*sample),
                        chunk@.len() == CHUNK_SIZE,
                        forall|x: int| 0 <= x < CHUNK_SIZE ==> (#[trigger] chunk@[x])@.len() == CHUNK_SIZE,
                        forall|x: int, z: int|
                            0 <= x < CHUNK_SIZE && 0 <= z < CHUNK_SIZE ==> sample.ensures(
                                ((ch_x * CHUNK_SIZE + x) as i64, (ch_y * CHUNK_SIZE + z) as i64),
                                #[trigger] chunk@[x]@[z],
                            ),
                        cubes@.len() == i * WINDOW_ROW_COLUMNS + j * CHUNK_COLUMNS + lx * CHUNK_SIZE + lz,
                        forall|k: int|
                            0 <= k < cubes@.len() ==> is_cube_at(
                                #[trigger] cubes@[k],
                                column_x(cx, k) * CENTI,
                                height_at(*sample, column_x(cx, k), column_z(cz, k)) * CENTI,
                                column_z(cz, k) * CENTI,
                            ),
                    decreases CHUNK_SIZE - lz,
                {
                    let h = chunk[lx][lz];
                    let col_x = ch_x * CHUNK_SIZE + lx as i64;
                    let col_z = ch_y * CHUNK_SIZE + lz as i64;
                    proof {
                        lemma_flat_index(i as int, j as int, lx as int, lz as int);
                        lemma_height_at(*sample, col_x, col_z, h);
                    }
                    let cube = init_cube(
                        Triple { x: col_x * CENTI, y: h as i64 * CENTI, z: col_z * CENTI },
                    );
                    cubes.push(cube);
                    lz = lz + 1;
                }
                lx = lx + 1;
            }
            j = j + 1;
        }
        i = i + 1;
    }
    cubes
}

/// Generation is deterministic: for one pure sampler, any two visible sets generated from
/// positions in the same chunk hold the same cubes, in the same order.
pub proof fn lemma_generation_deterministic<F: Fn(i64, i64) -> u8>(
    sample: F,
    pa: Triple,
    pb: Triple,
    a: Seq<Cube>,
    b: Seq<Cube>,
)
    requires
        chunk_of_spec(pa.x as int) == chunk_of_spec(pb.x as int),
        chunk_of_spec(pa.z as int) == chunk_of_spec(pb.z as int),
        is_visible_set(sample, chunk_of_spec(pa.x as int), chunk_of_spec(pa.z as int), a),
        is_visible_set(sample, chunk_of_spec(pb.x as int), chunk_of_spec(pb.z as int), b),
    ensures
        a.len() == b.len(),
        forall|k: int| 0 <= k < a.len() ==> (#[trigger] a[k]).verts@ == b[k].verts@,
        forall|k: int, f: int|
            0 <= k < a.len() && 0 <= f < 6 ==> (#[trigger] a[k].faces@[f])@ == b[k].faces@[f]@,
        forall|k: int, f: int|
            0 <= k < a.len() && 0 <= f < 6 ==> (#[trigger] a[k].colors@[f])@ == b[k].colors@[f]@,
{
    assert forall|k: int| 0 <= k < a.len() implies is_cube_at(
        #[trigger] a[k],
        column_x(chunk_of_spec(pa.x as int), k) * CENTI,
        height_at(sample, column_x(chunk_of_spec(pa.x as int), k), column_z(chunk_of_spec(pa.z as int), k)) * CENTI,
        column_z(chunk_of_spec(pa.z as int), k) * CENTI,
    ) && is_cube_at(
        b[k],
        column_x(chunk_of_spec(pa.x as int), k) * CENTI,
        height_at(sample, column_x(chunk_of_spec(pa.x as int), k), column_z(chunk_of_spec(pa.z as int), k)) * CENTI,
        column_z(chunk_of_spec(pa.z as int), k) * CENTI,
    ) by {}
}

} // verus!
