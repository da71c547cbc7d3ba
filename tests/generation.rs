use rustcraft::generation::{chunk_of, generate_cubes, load_chunk, CHUNK_SIZE, VISIBLE_CUBES};
use rustcraft::geometry::{init_cube, Triple};

fn ramp(x: i64, z: i64) -> u8 {
    ((x * 3 + z * 7).rem_euclid(11)) as u8
}

#[test]
fn chunk_of_floors_toward_negative_infinity() {
    assert_eq!(chunk_of(0), 0);
    assert_eq!(chunk_of(599), 0);
    assert_eq!(chunk_of(600), 1);
    assert_eq!(chunk_of(-1), -1);
    assert_eq!(chunk_of(-600), -1);
    assert_eq!(chunk_of(-601), -2);
}

#[test]
fn load_chunk_samples_each_column_of_the_chunk() {
    let chunk = load_chunk(2, -1, &ramp);
    assert_eq!(chunk.len(), 6);
    for x in 0..6 {
        assert_eq!(chunk[x].len(), 6);
        for z in 0..6 {
            assert_eq!(chunk[x][z], ramp(12 + x as i64, -6 + z as i64));
        }
    }
}

#[test]
fn init_cube_corners_are_half_a_unit_from_the_center() {
    let c = init_cube(Triple { x: 300, y: 200, z: -100 });
    assert_eq!(c.verts[0], Triple { x: 250, y: 150, z: -150 });
    assert_eq!(c.verts[6], Triple { x: 350, y: 250, z: -50 });
    assert_eq!(c.verts[3], Triple { x: 250, y: 250, z: -150 });
    assert_eq!(c.faces[1], [0, 5, 6, 0]);
    assert_eq!(c.colors[5], [0, 255, 0, 255]);
}

#[test]
fn generate_cubes_fills_a_three_by_three_window_of_chunks() {
    let cubes = generate_cubes(Triple { x: 50, y: -100, z: -500 }, &ramp);
    assert_eq!(cubes.len() as i64, VISIBLE_CUBES);
    assert_eq!(cubes.len(), 9 * 36);
    // The position lies in chunk (0, -1): the window starts at chunk (-1, -2).
    let first = cubes[0];
    let h = ramp(-6, -12) as i64;
    assert_eq!(first.verts[0], Triple { x: -650, y: h * 100 - 50, z: -1250 });
    // Cube 7: chunk (-1, -2), column (1, 1).
    let h7 = ramp(-5, -11) as i64;
    assert_eq!(cubes[7].verts[0], Triple { x: -550, y: h7 * 100 - 50, z: -1150 });
    // Cube 36 starts chunk (-1, -1); cube 108 starts chunk (0, -2).
    assert_eq!(cubes[36].verts[0].z, -6 * 100 - 50);
    assert_eq!(cubes[108].verts[0].x, -50);
    assert_eq!(cubes[108].verts[0].z, -12 * 100 - 50);
    let last = cubes[323];
    let hl = ramp(2 * CHUNK_SIZE - 1, CHUNK_SIZE - 1) as i64;
    assert_eq!(last.verts[6], Triple { x: 1150, y: hl * 100 + 50, z: 550 });
}

#[test]
fn generate_cubes_is_deterministic_within_a_chunk() {
    let a = generate_cubes(Triple { x: 10, y: 0, z: 20 }, &ramp);
    let b = generate_cubes(Triple { x: 590, y: 77, z: 599 }, &ramp);
    assert_eq!(a.len(), b.len());
    for k in 0..a.len() {
        assert_eq!(a[k].verts, b[k].verts);
        assert_eq!(a[k].faces, b[k].faces);
        assert_eq!(a[k].colors, b[k].colors);
    }
    let c = generate_cubes(Triple { x: 601, y: 0, z: 20 }, &ramp);
    assert_ne!(a[0].verts, c[0].verts);
}
