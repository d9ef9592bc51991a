use soldank::mapfile::{read_color, read_string, read_vec3, read_vertex, MapColor, MapError, MapFile};

fn push_i32(d: &mut Vec<u8>, v: i32) {
    d.extend_from_slice(&v.to_le_bytes());
}

fn push_f32(d: &mut Vec<u8>, v: f32) {
    d.extend_from_slice(&v.to_le_bytes());
}

fn push_string(d: &mut Vec<u8>, s: &str, field: usize) {
    d.push(s.len() as u8);
    d.extend_from_slice(s.as_bytes());
    for _ in s.len()..field {
        d.push(0);
    }
}

fn push_vertex(d: &mut Vec<u8>, x: f32, y: f32) {
    push_f32(d, x);
    push_f32(d, y);
    push_f32(d, 1.0);
    push_f32(d, 1.0);
    d.extend_from_slice(&[10, 20, 30, 40]);
    push_f32(d, 0.5);
    push_f32(d, 0.25);
}

/// A small map: one polygon, a 51 x 51 sector grid with one polygon in the
/// first sector, one prop, one scenery image, one collider, one spawn point.
fn sample_map() -> Vec<u8> {
    let mut d = Vec::new();
    push_i32(&mut d, 11);
    push_string(&mut d, "Test map", 38);
    push_string(&mut d, "banana.bmp", 24);
    d.extend_from_slice(&[1, 2, 3, 4]);
    d.extend_from_slice(&[5, 6, 7, 8]);
    push_i32(&mut d, 190);
    d.extend_from_slice(&[1, 2, 3, 4]);
    push_i32(&mut d, 1234);
    push_i32(&mut d, 1);
    push_vertex(&mut d, 0.0, 0.0);
    push_vertex(&mut d, 10.0, 0.0);
    push_vertex(&mut d, 0.0, 10.0);
    for _ in 0..3 {
        push_f32(&mut d, 0.0);
        push_f32(&mut d, 1.0);
        push_f32(&mut d, 0.0);
    }
    d.push(5);
    push_i32(&mut d, 45);
    push_i32(&mut d, 25);
    for k in 0..(51 * 51) {
        if k == 0 {
            d.extend_from_slice(&1u16.to_le_bytes());
            d.extend_from_slice(&0u16.to_le_bytes());
        } else {
            d.extend_from_slice(&0u16.to_le_bytes());
        }
    }
    push_i32(&mut d, 1);
    d.extend_from_slice(&1u16.to_le_bytes());
    d.extend_from_slice(&1u16.to_le_bytes());
    push_i32(&mut d, 64);
    push_i32(&mut d, 32);
    push_f32(&mut d, 100.0);
    push_f32(&mut d, 200.0);
    push_f32(&mut d, 0.0);
    push_f32(&mut d, 1.0);
    push_f32(&mut d, 1.0);
    push_i32(&mut d, 200);
    d.extend_from_slice(&[9, 8, 7, 6]);
    push_i32(&mut d, 1);
    push_i32(&mut d, 1);
    push_string(&mut d, "tree.bmp", 50);
    push_i32(&mut d, 77);
    push_i32(&mut d, 1);
    push_i32(&mut d, 1);
    push_f32(&mut d, 3.0);
    push_f32(&mut d, 4.0);
    push_f32(&mut d, 5.0);
    push_i32(&mut d, 1);
    push_i32(&mut d, 1);
    push_i32(&mut d, -30);
    push_i32(&mut d, 40);
    push_i32(&mut d, 2);
    d
}

#[test]
fn color_is_bgra() {
    let d = [1u8, 2, 3, 4, 5];
    let mut pos = 1;
    let c = read_color(&d, &mut pos);
    assert_eq!(c, MapColor { r: 4, g: 3, b: 2, a: 5 });
    assert_eq!(pos, 5);
}

#[test]
fn string_field() {
    let mut d = vec![3u8, b'a', b'b', b'c', 0, 0];
    d.push(0xaa);
    let mut pos = 0;
    assert_eq!(read_string(&d, &mut pos, 5).unwrap(), "abc");
    assert_eq!(pos, 6);
}

#[test]
fn string_lossy() {
    let d = vec![2u8, 0xff, b'x'];
    let mut pos = 0;
    assert_eq!(read_string(&d, &mut pos, 2).unwrap(), "\u{fffd}x");
}

#[test]
fn string_errors() {
    let mut pos = 0;
    assert_eq!(read_string(&[5u8, b'a', b'b', b'c', b'd', b'e'], &mut pos, 3), Err(MapError::BadStringLength));
    let mut pos = 0;
    assert_eq!(read_string(&[2u8, b'a'], &mut pos, 4), Err(MapError::UnexpectedEnd));
    let mut pos = 0;
    assert_eq!(read_string(&[1u8, b'a', 0], &mut pos, 4), Err(MapError::UnexpectedEnd));
    let mut pos = 3;
    assert_eq!(read_string(&[1u8, b'a', 0], &mut pos, 1), Err(MapError::UnexpectedEnd));
}

#[test]
fn vertex_and_vec3() {
    let mut d = Vec::new();
    push_vertex(&mut d, 1.5, -2.5);
    let v = read_vertex(&d, 0);
    assert_eq!(f32::from_bits(v.x), 1.5);
    assert_eq!(f32::from_bits(v.y), -2.5);
    assert_eq!(f32::from_bits(v.u), 0.5);
    assert_eq!(f32::from_bits(v.v), 0.25);
    assert_eq!(v.color, MapColor { r: 30, g: 20, b: 10, a: 40 });
    let (x, y, z) = read_vec3(&d, 0);
    assert_eq!((f32::from_bits(x), f32::from_bits(y), f32::from_bits(z)), (1.5, -2.5, 1.0));
}

#[test]
fn load_sample_map() {
    let d = sample_map();
    assert!(MapFile::parse_map_file(String::new(), &d).is_ok());
    let m = MapFile::load_map_file("maps/test.pms".to_string(), &d);
    assert_eq!(m.filename, "maps/test.pms");
    assert_eq!(m.version, 11);
    assert_eq!(m.mapname, "Test map");
    assert_eq!(m.texture_name, "banana.bmp");
    assert_eq!(m.bg_color_top, MapColor { r: 3, g: 2, b: 1, a: 4 });
    assert_eq!(m.bg_color_bottom, MapColor { r: 7, g: 6, b: 5, a: 8 });
    assert_eq!(m.start_jet, 190);
    assert_eq!((m.grenade_packs, m.medikits, m.weather, m.steps), (1, 2, 3, 4));
    assert_eq!(m.random_id, 1234);
    assert_eq!(m.polygons.len(), 1);
    assert_eq!(m.polygons[0].polytype, 5);
    assert_eq!(f32::from_bits(m.polygons[0].vertices[1].x), 10.0);
    assert_eq!(f32::from_bits(m.polygons[0].normals[2].1), 1.0);
    assert_eq!(m.sectors_division, 45);
    assert_eq!(m.sectors_num, 25);
    assert_eq!(m.sectors.len(), 51 * 51);
    assert_eq!(m.sectors[0].polys, vec![0u16]);
    assert_eq!(m.sectors_poly.len(), 71);
    assert_eq!(m.sectors_poly[0].len(), 51);
    assert_eq!(m.sectors_poly[0][0].polys, vec![0u16]);
    assert!(m.sectors_poly[70][50].polys.is_empty());
    assert_eq!(m.props.len(), 1);
    let p = m.props[0];
    assert!(p.active);
    assert_eq!((p.style, p.width, p.height, p.level), (1, 64, 32, 1));
    assert_eq!(f32::from_bits(p.x), 100.0);
    assert_eq!(p.alpha, 200);
    assert_eq!(p.color, MapColor { r: 7, g: 8, b: 9, a: 200 });
    assert_eq!(m.scenery.len(), 1);
    assert_eq!(m.scenery[0].filename, "tree.bmp");
    assert_eq!(m.scenery[0].date, 77);
    assert_eq!(m.colliders.len(), 1);
    assert!(m.colliders[0].active);
    assert_eq!(f32::from_bits(m.colliders[0].radius), 5.0);
    assert_eq!(m.spawnpoints.len(), 1);
    assert_eq!((m.spawnpoints[0].x, m.spawnpoints[0].y, m.spawnpoints[0].team), (-30, 40, 2));
}

#[test]
fn truncated_map() {
    let d = sample_map();
    assert_eq!(MapFile::parse_map_file(String::new(), &d[..d.len() - 1]).err(), Some(MapError::UnexpectedEnd));
    assert_eq!(MapFile::parse_map_file(String::new(), &d[..3]).err(), Some(MapError::UnexpectedEnd));
}

#[test]
fn bad_counts() {
    let d = sample_map();
    // number of polygons sits after the header
    let poly_count_at = 4 + 39 + 25 + 8 + 4 + 4 + 4;
    let mut bad = d.clone();
    bad[poly_count_at..poly_count_at + 4].copy_from_slice(&(-1i32).to_le_bytes());
    assert_eq!(MapFile::parse_map_file(String::new(), &bad).err(), Some(MapError::BadPolygonCount));
    let mut bad = d.clone();
    bad[poly_count_at..poly_count_at + 4].copy_from_slice(&5001i32.to_le_bytes());
    assert_eq!(MapFile::parse_map_file(String::new(), &bad).err(), Some(MapError::BadPolygonCount));
    let sectors_num_at = poly_count_at + 4 + 3 * 28 + 3 * 12 + 1 + 4;
    let mut bad = d.clone();
    bad[sectors_num_at..sectors_num_at + 4].copy_from_slice(&26i32.to_le_bytes());
    assert_eq!(MapFile::parse_map_file(String::new(), &bad).err(), Some(MapError::BadSectorCount));
    let mut bad = d.clone();
    bad[sectors_num_at..sectors_num_at + 4].copy_from_slice(&24i32.to_le_bytes());
    assert_eq!(MapFile::parse_map_file(String::new(), &bad).err(), Some(MapError::MissingSectors));
}
