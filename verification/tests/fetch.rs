use moonshine_util::fetch::{Expect, FetchOutcome};

const A: u64 = 10;
const B: u64 = 20;

#[test]
fn missing_inner_attribute_aborts_with_entity() {
    // Query pattern (A, Expect<B>) over a chunk whose schema has A but not B:
    // the outer pattern matches the chunk, so the decorator sees its rows, and
    // every row fetch aborts instead of being silently skipped.
    let expect_b = Expect::new(vec![B]);
    let entity = 7;
    let chunk_schema = vec![A];

    assert!(expect_b.matches_component_set());

    let mut fetch = expect_b.init_fetch();
    expect_b.set_chunk(&mut fetch, &chunk_schema);
    assert_eq!(expect_b.fetch(&fetch, entity), FetchOutcome::Abort { entity });
}

#[test]
fn matching_inner_attribute_materializes() {
    let expect_b = Expect::new(vec![B]);
    let entity = 7;
    let chunk_schema = vec![A, B];

    let mut fetch = expect_b.init_fetch();
    expect_b.set_chunk(&mut fetch, &chunk_schema);
    assert_eq!(expect_b.fetch(&fetch, entity), FetchOutcome::Materialize);
}

#[test]
fn chunk_test_is_cached_per_chunk() {
    let expect_b = Expect::new(vec![B]);
    let with_b = vec![A, B];
    let without_b = vec![A];

    let mut fetch = expect_b.init_fetch();

    expect_b.set_chunk(&mut fetch, &with_b);
    assert_eq!(expect_b.fetch(&fetch, 1), FetchOutcome::Materialize);
    assert_eq!(expect_b.fetch(&fetch, 2), FetchOutcome::Materialize);

    expect_b.set_chunk(&mut fetch, &without_b);
    assert_eq!(expect_b.fetch(&fetch, 3), FetchOutcome::Abort { entity: 3 });
    assert_eq!(expect_b.fetch(&fetch, 4), FetchOutcome::Abort { entity: 4 });
}

#[test]
fn fresh_fetch_state_matches_nothing() {
    let expect_b = Expect::new(vec![B]);
    let fetch = expect_b.init_fetch();
    assert_eq!(expect_b.fetch(&fetch, 9), FetchOutcome::Abort { entity: 9 });
}

#[test]
fn empty_pattern_matches_any_chunk() {
    let expect_nothing = Expect::new(Vec::new());
    let mut fetch = expect_nothing.init_fetch();
    expect_nothing.set_chunk(&mut fetch, &Vec::new());
    assert_eq!(expect_nothing.fetch(&fetch, 1), FetchOutcome::Materialize);
}

#[test]
fn access_declaration_still_includes_inner_requirements() {
    let expect = Expect::new(vec![B, 30]);
    let mut access = vec![A];
    expect.update_access(&mut access);
    assert_eq!(access, vec![A, B, 30]);
    assert_eq!(expect.required(), &vec![B, 30]);
}
