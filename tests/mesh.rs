use softraster::mesh::{gather, parse_corner, parse_face, parse_index, record_kind, split_fields, RecordKind};

#[test]
fn split_keeps_empty_fields() {
    let f = split_fields(b"vt  0.5 0.25", b' ');
    assert_eq!(f, vec![b"vt".to_vec(), vec![], b"0.5".to_vec(), b"0.25".to_vec()]);
    assert_eq!(split_fields(b"", b' '), vec![Vec::<u8>::new()]);
    assert_eq!(split_fields(b"1/2/", b'/'), vec![b"1".to_vec(), b"2".to_vec(), vec![]]);
}

#[test]
fn index_is_one_based() {
    assert_eq!(parse_index(&b"1".to_vec()), Some(0));
    assert_eq!(parse_index(&b"1024".to_vec()), Some(1023));
    assert_eq!(parse_index(&b"007".to_vec()), Some(6));
    assert_eq!(parse_index(&b"0".to_vec()), None);
    assert_eq!(parse_index(&b"".to_vec()), None);
    assert_eq!(parse_index(&b"1x".to_vec()), None);
    assert_eq!(parse_index(&b"-3".to_vec()), None);
    assert_eq!(parse_index(&b"99999999999999999999999".to_vec()), None);
    assert_eq!(parse_index(&usize::MAX.to_string().into_bytes()), Some(usize::MAX - 1));
}

#[test]
fn corner_reference() {
    assert_eq!(parse_corner(&b"3/2/1".to_vec()), Some((2, 1, 0)));
    assert_eq!(parse_corner(&b"3/2".to_vec()), None);
    assert_eq!(parse_corner(&b"3//1".to_vec()), None);
    assert_eq!(parse_corner(&b"3/2/1/".to_vec()), None);
}

#[test]
fn face_record() {
    let f = parse_face(b"f 24/1/24 25/2/25 26/3/26").unwrap();
    assert_eq!(f.vertices, [23, 24, 25]);
    assert_eq!(f.uvs, [0, 1, 2]);
    assert_eq!(f.normals, [23, 24, 25]);
}

#[test]
fn malformed_face_records() {
    assert!(parse_face(b"f 1/1/1 2/2/2").is_none());
    assert!(parse_face(b"f 1/1/1 2/2/2 3/3/3 4/4/4").is_none());
    assert!(parse_face(b"f 1/1/1 2/2/2 0/3/3").is_none());
    assert!(parse_face(b"g 1/1/1 2/2/2 3/3/3").is_none());
    assert!(parse_face(b"f  1/1/1 2/2/2 3/3/3").is_none());
}

#[test]
fn record_kinds() {
    assert_eq!(record_kind(b"v 1.0 2.0 3.0"), RecordKind::Position);
    assert_eq!(record_kind(b"vt  0.5 0.5 0.0"), RecordKind::TexCoord);
    assert_eq!(record_kind(b"vn  0 0 1"), RecordKind::Normal);
    assert_eq!(record_kind(b"f 1/1/1 2/2/2 3/3/3"), RecordKind::Face);
    assert_eq!(record_kind(b"# comment"), RecordKind::Other);
    assert_eq!(record_kind(b""), RecordKind::Other);
    assert_eq!(record_kind(b"vp 1"), RecordKind::Other);
}

#[test]
fn gather_by_face_indices() {
    let items = vec![10, 20, 30, 40];
    assert_eq!(gather(&items, &[3, 0, 2]), Some([40, 10, 30]));
    assert_eq!(gather(&items, &[1, 4, 2]), None);
}
