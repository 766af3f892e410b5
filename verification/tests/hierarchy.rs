use moonshine_util::hierarchy::Hierarchy;

/// The tree used by the traversal tests, entities named by their label:
/// 0 -> 1 -> {2 -> {3, 4 -> 5}, 6 -> 7}.
fn sample_tree() -> Hierarchy {
    let mut h = Hierarchy::new();
    h.add(0, vec![1]);
    h.add(1, vec![2, 6]);
    h.add(2, vec![3, 4]);
    h.add(4, vec![5]);
    h.add(6, vec![7]);
    h
}

fn collect_wide(h: &Hierarchy, root: u64) -> Vec<u64> {
    let mut it = h.descendants_wide(root);
    let mut r = Vec::new();
    while let Some(e) = it.next(h) {
        r.push(e);
    }
    r
}

fn collect_deep(h: &Hierarchy, root: u64) -> Vec<u64> {
    let mut it = h.descendants_deep(root);
    let mut r = Vec::new();
    while let Some(e) = it.next(h) {
        r.push(e);
    }
    r
}

#[test]
fn parent_child() {
    let mut h = Hierarchy::new();
    h.add(10, vec![11]);

    assert_eq!(h.children(10).len(), 1);
    assert_eq!(h.parent(11), Some(10));
    assert_eq!(h.parent(10), None);
}

#[test]
fn ancestors() {
    let h = sample_tree();

    let mut it = h.ancestors(7);
    let mut r = Vec::new();
    while let Some(e) = it.next(&h) {
        r.push(e);
    }

    assert_eq!(r, vec![6, 1, 0]);
}

#[test]
fn descendants_wide() {
    let h = sample_tree();
    let r = collect_wide(&h, 0);
    assert_eq!(r, vec![1, 2, 6, 3, 4, 7, 5]);
}

#[test]
fn world_descendants_wide() {
    let h = sample_tree();
    let mut it = h.descendants_wide(0);
    let mut r = Vec::new();
    while let Some(e) = it.next(&h) {
        r.push(e);
    }
    assert_eq!(r, vec![1, 2, 6, 3, 4, 7, 5]);
}

#[test]
fn descendants_deep() {
    let h = sample_tree();
    let r = collect_deep(&h, 0);
    assert_eq!(r, vec![1, 2, 3, 4, 5, 6, 7]);
}

#[test]
fn world_descendants_deep() {
    let h = sample_tree();
    let mut it = h.descendants_deep(0);
    let mut r = Vec::new();
    while let Some(e) = it.next(&h) {
        r.push(e);
    }
    assert_eq!(r, vec![1, 2, 3, 4, 5, 6, 7]);
}
