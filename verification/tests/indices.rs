use wasm_weaver::indices::{IndexMapper, Indices};

#[test]
fn reserve_hands_out_consecutive_indices() {
    let mut mapper = IndexMapper::new();
    assert_eq!(mapper.reserve(), 0);
    assert_eq!(mapper.reserve(), 1);
    assert_eq!(mapper.reserve_many(3), 2);
    assert_eq!(mapper.reserve(), 5);
    assert_eq!(mapper.reserved(), 6);
}

#[test]
fn map_reserve_binds_source_to_fresh_target() {
    let mut mapper = IndexMapper::new();
    mapper.reserve_many(4);
    assert_eq!(mapper.map_reserve(9), 4);
    assert_eq!(mapper.map(9), Some(4));
    assert_eq!(mapper.map(4), None);
}

#[test]
fn add_mapping_binds_to_reserved_target() {
    let mut mapper = IndexMapper::new();
    let first = mapper.reserve_many(2);
    mapper.add_mapping(7, first + 1);
    mapper.add_mapping(8, first);
    assert_eq!(mapper.map(7), Some(1));
    assert_eq!(mapper.map(8), Some(0));
    assert_eq!(mapper.map(0), None);
}

#[test]
fn unmapped_source_is_absent() {
    let mapper = IndexMapper::default();
    assert_eq!(mapper.map(0), None);
    assert_eq!(mapper.map(u32::MAX), None);
}

#[test]
fn the_four_index_spaces_are_independent() {
    let mut indices = Indices::default();
    assert_eq!(indices.types.map_reserve(3), 0);
    assert_eq!(indices.funcs.map_reserve(3), 0);
    assert_eq!(indices.funcs.map_reserve(4), 1);
    assert_eq!(indices.tables.map(3), None);
    assert_eq!(indices.globals.reserve(), 0);
    assert_eq!(indices.types.map(3), Some(0));
    assert_eq!(indices.funcs.map(4), Some(1));
}
