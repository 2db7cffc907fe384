use sulis::codec::{
    as_base64, decode_layer_set, decode_terrain, decode_walls, encode_layer_positions, encode_layer_set,
    encode_terrain, encode_walls, entries_from_codes, entry_index, from_base64, layer_positions_from_codes,
    walls_from_codes, AreaCodecError, KindTable, U8WithKinds,
};

fn s(x: &str) -> String {
    x.to_string()
}

#[test]
fn terrain_encodes_kinds_in_first_appearance_order() {
    let terrain = vec![Some(s("grass")), None, Some(s("dirt")), Some(s("grass"))];
    let u = encode_terrain(&terrain).unwrap();
    assert_eq!(u.kinds, vec![s("grass"), s("dirt")]);
    assert_eq!(u.entries, "AP8BAA==");
}

#[test]
fn terrain_roundtrip() {
    let terrain = vec![Some(s("a")), Some(s("b")), None, Some(s("b")), Some(s("c")), Some(s("a"))];
    let u = encode_terrain(&terrain).unwrap();
    let back = decode_terrain(&u).unwrap();
    assert_eq!(back, terrain);
}

#[test]
fn terrain_empty_roundtrip() {
    let terrain: Vec<Option<String>> = Vec::new();
    let u = encode_terrain(&terrain).unwrap();
    assert!(u.kinds.is_empty());
    assert_eq!(u.entries, "");
    assert_eq!(decode_terrain(&u).unwrap(), terrain);
}

#[test]
fn terrain_with_255_kinds_encodes_and_256_fail() {
    let mut terrain: Vec<Option<String>> = (0..255).map(|i| Some(format!("k{}", i))).collect();
    let u = encode_terrain(&terrain).unwrap();
    assert_eq!(u.kinds.len(), 255);
    assert_eq!(decode_terrain(&u).unwrap(), terrain);
    terrain.push(None);
    assert!(encode_terrain(&terrain).is_ok());
    terrain.push(Some(s("one too many")));
    assert!(matches!(encode_terrain(&terrain), Err(AreaCodecError::TooManyKinds)));
}

#[test]
fn terrain_decode_invalid_index() {
    let u = U8WithKinds { kinds: vec![s("a")], entries: s("AQ==") };
    assert!(matches!(decode_terrain(&u), Err(AreaCodecError::InvalidTerrainIndex)));
}

#[test]
fn terrain_decode_invalid_base64() {
    let u = U8WithKinds { kinds: vec![s("a")], entries: s("!!!") };
    assert!(matches!(decode_terrain(&u), Err(AreaCodecError::Base64(_))));
}

#[test]
fn terrain_codes_255_is_no_kind_even_with_many_kinds() {
    let kinds: Vec<String> = (0..300).map(|i| format!("k{}", i)).collect();
    let out = entries_from_codes(&kinds, &vec![255, 254, 0]).unwrap();
    assert_eq!(out, vec![None, Some(s("k254")), Some(s("k0"))]);
}

#[test]
fn entry_index_numbers_ids_stably() {
    let mut table = KindTable::new();
    assert_eq!(entry_index(&mut table, &Some(s("x"))).unwrap(), 0);
    assert_eq!(entry_index(&mut table, &Some(s("y"))).unwrap(), 1);
    assert_eq!(entry_index(&mut table, &None).unwrap(), 255);
    assert_eq!(entry_index(&mut table, &Some(s("x"))).unwrap(), 0);
    assert_eq!(table.kinds(), &vec![s("x"), s("y")]);
}

#[test]
fn walls_encode_pairs_of_kind_and_elevation() {
    let walls = vec![(3u8, Some(s("stone"))), (0u8, None)];
    let u = encode_walls(&walls).unwrap();
    assert_eq!(u.kinds, vec![s("stone")]);
    assert_eq!(u.entries, "AAP/AA==");
    assert_eq!(decode_walls(&u).unwrap(), walls);
}

#[test]
fn walls_roundtrip() {
    let walls = vec![(1u8, Some(s("a"))), (2u8, Some(s("b"))), (7u8, Some(s("a"))), (0u8, None)];
    let u = encode_walls(&walls).unwrap();
    assert_eq!(decode_walls(&u).unwrap(), walls);
}

#[test]
fn walls_empty_do_not_roundtrip() {
    let walls: Vec<(u8, Option<String>)> = Vec::new();
    let u = encode_walls(&walls).unwrap();
    assert_eq!(u.entries, "");
    assert!(matches!(decode_walls(&u), Err(AreaCodecError::InvalidWallsEncoding)));
}

#[test]
fn walls_odd_length_is_encoding_error() {
    let kinds = vec![s("a")];
    assert!(matches!(walls_from_codes(&kinds, &vec![0, 1, 0]), Err(AreaCodecError::InvalidWallsEncoding)));
    assert!(matches!(walls_from_codes(&kinds, &vec![0]), Err(AreaCodecError::InvalidWallsEncoding)));
}

#[test]
fn walls_bad_index_before_bad_length_is_index_error() {
    let kinds = vec![s("a")];
    assert!(matches!(walls_from_codes(&kinds, &vec![0, 1, 5, 1, 0]), Err(AreaCodecError::InvalidWallsIndex)));
    assert!(matches!(walls_from_codes(&kinds, &vec![9, 1]), Err(AreaCodecError::InvalidWallsIndex)));
}

#[test]
fn walls_too_many_kinds() {
    let walls: Vec<(u8, Option<String>)> = (0..256).map(|i| (0u8, Some(format!("w{}", i)))).collect();
    assert!(matches!(encode_walls(&walls), Err(AreaCodecError::TooManyKinds)));
}

#[test]
fn layer_positions_are_big_endian_pairs() {
    let bytes = encode_layer_positions(&vec![vec![258u16, 3u16]]);
    assert_eq!(bytes, vec![1, 2, 0, 3]);
    let layers = vec![(s("floor"), vec![vec![258u16, 3u16], vec![65535u16, 0u16]])];
    let encoded = encode_layer_set(&layers);
    assert_eq!(encoded[0].0, "floor");
    assert_eq!(encoded[0].1, "AQIAA///AAA=");
    let decoded = decode_layer_set(&encoded).unwrap();
    assert_eq!(decoded, layers);
}

#[test]
fn layer_roundtrip_keeps_first_two_coordinates() {
    let layers = vec![(s("a"), vec![vec![1u16, 2u16, 99u16]]), (s("b"), vec![vec![300u16, 4000u16]])];
    let decoded = decode_layer_set(&encode_layer_set(&layers)).unwrap();
    assert_eq!(decoded[0].1, vec![vec![1u16, 2u16]]);
    assert_eq!(decoded[1].1, vec![vec![300u16, 4000u16]]);
}

#[test]
fn layer_decode_errors() {
    assert!(matches!(layer_positions_from_codes(&vec![]), Err(AreaCodecError::InvalidLayerEncoding)));
    assert!(matches!(layer_positions_from_codes(&vec![1, 2, 3]), Err(AreaCodecError::InvalidLayerEncoding)));
    let empty = encode_layer_set(&vec![(s("e"), vec![])]);
    assert!(matches!(decode_layer_set(&empty), Err(AreaCodecError::InvalidLayerEncoding)));
    let bad = vec![(s("ok"), s("AQIAAw==")), (s("bad"), s("%%"))];
    assert!(matches!(decode_layer_set(&bad), Err(AreaCodecError::Base64(_))));
}

#[test]
fn elevation_base64() {
    assert_eq!(as_base64(&[0u8, 1, 2]), "AAEC");
    assert_eq!(from_base64("AAEC").unwrap(), vec![0u8, 1, 2]);
    assert!(matches!(from_base64("A"), Err(AreaCodecError::Base64(_))));
}

#[test]
fn base64_pads_partial_groups() {
    assert_eq!(as_base64(b"Man"), "TWFu");
    assert_eq!(as_base64(b"Ma"), "TWE=");
    assert_eq!(as_base64(&[0xffu8]), "/w==");
    assert_eq!(as_base64(&[0xfbu8, 0xef, 0xbe]), "++++");
    assert_eq!(as_base64(&[]), "");
    assert_eq!(from_base64("TWE").unwrap(), b"Ma".to_vec());
}
