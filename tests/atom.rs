use lv2::atom::{
    contents, pad_size, Atom, Bool, Contents, Double, Float, Header, Int, Literal, Long, Object, Property,
    String as AtomString, Tuple, Value, Vector, URID,
};

fn atom(size: u32, type_urid: u32, body: &[u8]) -> Vec<u8> {
    let mut b = Vec::new();
    b.extend_from_slice(&size.to_le_bytes());
    b.extend_from_slice(&type_urid.to_le_bytes());
    b.extend_from_slice(body);
    b
}

#[test]
fn pad_size_rounds_up_to_eight() {
    assert_eq!(pad_size(0), 0);
    assert_eq!(pad_size(1), 8);
    assert_eq!(pad_size(7), 8);
    assert_eq!(pad_size(8), 8);
    assert_eq!(pad_size(9), 16);
    assert_eq!(pad_size(3), 8);
}

#[test]
fn pad_size_is_idempotent_and_close() {
    for n in 0usize..100 {
        let p = pad_size(n);
        assert_eq!(pad_size(p), p);
        assert!(p >= n);
        assert!(p - n < 8);
        assert_eq!(p % 8, 0);
    }
}

#[test]
fn header_reads_size_and_type() {
    let b = atom(4, 17, &[1, 0, 0, 0]);
    let h = Header::from_bytes(&b).unwrap();
    assert_eq!(h.size(), 4);
    assert_eq!(h.type_urid(), 17);
    assert!(Header::from_bytes(&b[..7]).is_none());
}

#[test]
fn int_round_trip() {
    for v in [0i32, 1, -1, i32::MAX, i32::MIN, 123456] {
        let b = atom(4, 3, &v.to_le_bytes());
        let a = Int::from_bytes(&b).unwrap();
        assert_eq!(a.value(), v);
        assert_eq!(a.type_urid(), 3);
        assert_eq!(a.size(), 4);
    }
}

#[test]
fn long_round_trip() {
    for v in [0i64, -1, i64::MAX, i64::MIN, 1 << 40] {
        let b = atom(8, 4, &v.to_le_bytes());
        assert_eq!(Long::from_bytes(&b).unwrap().value(), v);
    }
}

#[test]
fn float_and_double_round_trip_bit_for_bit() {
    for v in [0.0f32, -0.0, 1.5, f32::MAX, f32::MIN_POSITIVE, f32::NAN] {
        let b = atom(4, 5, &v.to_bits().to_le_bytes());
        assert_eq!(Float::from_bytes(&b).unwrap().bits(), v.to_bits());
    }
    for v in [0.0f64, -2.25, f64::MAX, f64::INFINITY] {
        let b = atom(8, 6, &v.to_bits().to_le_bytes());
        assert_eq!(Double::from_bytes(&b).unwrap().bits(), v.to_bits());
    }
}

#[test]
fn bool_and_urid_round_trip() {
    let t = atom(4, 7, &1i32.to_le_bytes());
    let f = atom(4, 7, &0i32.to_le_bytes());
    let other = atom(4, 7, &(-5i32).to_le_bytes());
    assert!(Bool::from_bytes(&t).unwrap().value());
    assert!(!Bool::from_bytes(&f).unwrap().value());
    assert!(Bool::from_bytes(&other).unwrap().value());
    let u = atom(4, 8, &99u32.to_le_bytes());
    assert_eq!(URID::from_bytes(&u).unwrap().value(), 99);
}

#[test]
fn scalar_needs_its_whole_body() {
    let short = atom(4, 3, &[1, 2]);
    assert!(Int::from_bytes(&short).is_none());
    let small_size = atom(2, 3, &[1, 2, 3, 4]);
    assert!(Int::from_bytes(&small_size).is_none());
    let int_for_long = atom(4, 4, &[0; 8]);
    assert!(Long::from_bytes(&int_for_long).is_none());
}

#[test]
fn string_contents_stop_at_nul() {
    let b = atom(6, 9, b"hello\0");
    let s = AtomString::from_bytes(&b).unwrap();
    assert_eq!(s.contents(), Some("hello"));
    assert_eq!(AtomString::type_uri(), "http://lv2plug.in/ns/ext/atom#String");
}

#[test]
fn string_contents_bounded_by_size() {
    let b = atom(3, 9, b"abcdef\0");
    let s = AtomString::from_bytes(&b).unwrap();
    assert_eq!(s.contents(), Some("abc"));
}

#[test]
fn string_with_invalid_utf8_fails() {
    let b = atom(3, 9, &[0x61, 0xFF, 0x00]);
    let s = AtomString::from_bytes(&b).unwrap();
    assert_eq!(s.contents(), None);
}

#[test]
fn string_longer_than_buffer_fails() {
    let b = atom(10, 9, b"abc");
    assert!(AtomString::from_bytes(&b).is_none());
}

#[test]
fn literal_reads_datatype_lang_and_text() {
    let mut body = Vec::new();
    body.extend_from_slice(&11u32.to_le_bytes());
    body.extend_from_slice(&12u32.to_le_bytes());
    body.extend_from_slice("déjà\0".as_bytes());
    let b = atom(body.len() as u32, 10, &body);
    let l = Literal::from_bytes(&b).unwrap();
    assert_eq!(l.body.datatype, 11);
    assert_eq!(l.body.lang, 12);
    assert_eq!(l.contents(), Some("déjà"));
}

#[test]
fn containers_expose_their_bodies() {
    let inner = atom(4, 3, &5i32.to_le_bytes());
    let t = atom(inner.len() as u32, 20, &inner);
    let tuple = Tuple::from_bytes(&t).unwrap();
    assert_eq!(tuple.items, &inner[..]);

    let mut vb = Vec::new();
    vb.extend_from_slice(&4u32.to_le_bytes());
    vb.extend_from_slice(&3u32.to_le_bytes());
    vb.extend_from_slice(&[1, 0, 0, 0, 2, 0, 0, 0]);
    let v = atom(vb.len() as u32, 21, &vb);
    let vector = Vector::from_bytes(&v).unwrap();
    assert_eq!(vector.body.child_size, 4);
    assert_eq!(vector.body.child_type, 3);
    assert_eq!(vector.items.len(), 8);

    let mut pb = Vec::new();
    pb.extend_from_slice(&30u32.to_le_bytes());
    pb.extend_from_slice(&0u32.to_le_bytes());
    pb.extend_from_slice(&inner);
    let p = atom(pb.len() as u32, 22, &pb);
    let prop = Property::from_bytes(&p).unwrap();
    assert_eq!(prop.body.key, 30);
    assert_eq!(prop.body.value.size(), 4);
    assert_eq!(prop.body.value.type_urid(), 3);
    assert_eq!(prop.value_body, &5i32.to_le_bytes()[..]);

    let mut ob = Vec::new();
    ob.extend_from_slice(&40u32.to_le_bytes());
    ob.extend_from_slice(&41u32.to_le_bytes());
    let o = atom(ob.len() as u32, 23, &ob);
    let obj = Object::from_bytes(&o).unwrap();
    assert_eq!(obj.body.id, 40);
    assert_eq!(obj.body.otype, 41);
    assert!(obj.items.is_empty());
    assert_eq!(obj.type_urid(), 23);
}

#[test]
fn contents_is_the_declared_body() {
    let b = atom(3, 1, &[9, 8, 7, 6, 5]);
    assert_eq!(contents(&b), Some(&[9u8, 8, 7][..]));
    let empty = atom(0, 1, &[]);
    assert_eq!(contents(&empty), Some(&[][..]));
    let short = atom(6, 1, &[1, 2]);
    assert_eq!(contents(&short), None);
    assert_eq!(contents(&[1, 2, 3]), None);
}
