use raytracer::aabb::{surrounding_box, AABB};
use raytracer::bvh::{divide, BVHNode, Child, Division};
use raytracer::hittable::{Entry, HittableList};
use raytracer::vec::Vec3;

fn key(x: f64) -> i64 {
    let bits = x.to_bits();
    let mag = (bits & 0x7FFF_FFFF_FFFF_FFFF) as i64;
    if bits >> 63 == 1 {
        -mag
    } else {
        mag
    }
}

fn cube(lo: (f64, f64, f64), hi: (f64, f64, f64)) -> AABB {
    AABB::new(
        Vec3::new((key(lo.0), key(lo.1), key(lo.2))),
        Vec3::new((key(hi.0), key(hi.1), key(hi.2))),
    )
}

fn unit_cube_at(x: f64, y: f64, z: f64) -> AABB {
    cube((x, y, z), (x + 1.0, y + 1.0, z + 1.0))
}

fn leaves(child: &Child, out: &mut Vec<Entry>) {
    match child {
        Child::Leaf(e) => out.push(*e),
        Child::Node(n) => {
            leaves(&n.left, out);
            leaves(&n.right, out);
        }
    }
}

fn child_box(child: &Child) -> AABB {
    child.bounding_box()
}

/// Checks the shape of a tree over `count` objects, and returns its leaves.
fn check_tree(node: &BVHNode, count: usize) -> Vec<Entry> {
    assert_eq!(node.bbox, surrounding_box((child_box(&node.left), child_box(&node.right))));
    let mut left = Vec::new();
    let mut right = Vec::new();
    leaves(&node.left, &mut left);
    leaves(&node.right, &mut right);
    match count {
        1 => {
            assert!(matches!(node.left, Child::Leaf(_)));
            assert!(matches!(node.right, Child::Leaf(_)));
            assert_eq!(node.left, node.right);
            left
        }
        2 => {
            assert!(matches!(node.left, Child::Leaf(_)));
            assert!(matches!(node.right, Child::Leaf(_)));
            left.extend(right);
            left
        }
        _ => {
            let mid = count / 2;
            let ordered = (0..3).any(|axis| {
                let top = left.iter().map(|e| e.axis_key(axis)).max().unwrap();
                let bottom = right.iter().map(|e| e.axis_key(axis)).min().unwrap();
                top <= bottom
            });
            assert!(ordered);
            let l = match &node.left {
                Child::Node(n) => check_tree(n, mid),
                Child::Leaf(_) => panic!("a leaf where a tree is due"),
            };
            let r = match &node.right {
                Child::Node(n) => check_tree(n, count - mid),
                Child::Leaf(_) => panic!("a leaf where a tree is due"),
            };
            let mut all = l;
            all.extend(r);
            all
        }
    }
}

fn ids(entries: &Vec<Entry>) -> Vec<usize> {
    let mut v: Vec<usize> = entries.iter().map(|e| e.id).collect();
    v.sort();
    v.dedup();
    v
}

#[test]
fn entry_keys_come_from_the_box() {
    let e = Entry::new(4, Some(cube((1.0, 2.0, 3.0), (4.0, 5.0, 6.0))));
    assert_eq!(e.id, 4);
    assert_eq!(e.key_box(), cube((1.0, 2.0, 3.0), (4.0, 5.0, 6.0)));
    assert_eq!(e.axis_key(0), key(1.0));
    assert_eq!(e.axis_key(1), key(2.0));
    assert_eq!(e.axis_key(2), key(3.0));
    let bare = Entry::new(5, None);
    assert_eq!(bare.key_box(), AABB::default());
    assert_eq!(bare.axis_key(1), key(0.0));
}

#[test]
fn tree_of_one_object_has_it_on_both_sides() {
    let e = Entry::new(11, Some(unit_cube_at(0.0, 0.0, 0.0)));
    let root = BVHNode::from_objects(vec![e]);
    assert_eq!(root.left, Child::Leaf(e));
    assert_eq!(root.right, Child::Leaf(e));
    assert_eq!(root.bbox, unit_cube_at(0.0, 0.0, 0.0));
}

#[test]
fn tree_of_two_objects_puts_the_smaller_left() {
    let a = Entry::new(1, Some(unit_cube_at(5.0, 5.0, 5.0)));
    let b = Entry::new(2, Some(unit_cube_at(-5.0, -5.0, -5.0)));
    for _ in 0..10 {
        let root = BVHNode::from_objects(vec![a, b]);
        assert_eq!(root.left, Child::Leaf(b));
        assert_eq!(root.right, Child::Leaf(a));
        assert_eq!(root.bbox, cube((-5.0, -5.0, -5.0), (6.0, 6.0, 6.0)));
        let root = BVHNode::from_objects(vec![b, a]);
        assert_eq!(root.left, Child::Leaf(b));
        assert_eq!(root.right, Child::Leaf(a));
    }
}

#[test]
fn tree_of_two_equal_keys_puts_the_second_left() {
    let a = Entry::new(1, Some(unit_cube_at(1.0, 1.0, 1.0)));
    let b = Entry::new(2, Some(unit_cube_at(1.0, 1.0, 1.0)));
    let root = BVHNode::from_objects(vec![a, b]);
    assert_eq!(root.left, Child::Leaf(b));
    assert_eq!(root.right, Child::Leaf(a));
}

#[test]
fn tree_of_four_descending_objects_is_sorted() {
    let objects: Vec<Entry> = (0..4)
        .map(|i| {
            let at = 10.0 - 3.0 * i as f64;
            Entry::new(i, Some(unit_cube_at(at, at, at)))
        })
        .collect();
    for _ in 0..10 {
        let root = BVHNode::from_objects(objects.clone());
        let found = check_tree(&root, 4);
        assert_eq!(ids(&found), vec![0, 1, 2, 3]);
        let mut low = Vec::new();
        leaves(&root.left, &mut low);
        assert_eq!(ids(&low), vec![2, 3]);
        assert_eq!(root.left, Child::Node(Box::new(BVHNode::from_objects(vec![objects[3], objects[2]]))));
    }
}

#[test]
fn tree_of_three_objects_splits_one_and_two() {
    let objects: Vec<Entry> = (0..3)
        .map(|i| {
            let at = 2.0 * i as f64;
            Entry::new(i, Some(unit_cube_at(at, -at, at * 0.5)))
        })
        .collect();
    for _ in 0..10 {
        let root = BVHNode::from_objects(objects.clone());
        let found = check_tree(&root, 3);
        assert_eq!(ids(&found), vec![0, 1, 2]);
        let mut low = Vec::new();
        leaves(&root.left, &mut low);
        assert_eq!(low.len(), 2);
        assert_eq!(low[0], low[1]);
        assert_eq!(root.bbox, cube((0.0, -4.0, 0.0), (5.0, 1.0, 3.0)));
    }
}

#[test]
fn tree_keeps_equal_keys_in_their_order() {
    let objects: Vec<Entry> = (0..6).map(|i| Entry::new(i, Some(unit_cube_at(1.0, 1.0, 1.0)))).collect();
    let root = BVHNode::from_objects(objects.clone());
    let mut low = Vec::new();
    let mut high = Vec::new();
    leaves(&root.left, &mut low);
    leaves(&root.right, &mut high);
    assert_eq!(ids(&low), vec![0, 1, 2]);
    assert_eq!(ids(&high), vec![3, 4, 5]);
}

#[test]
fn tree_of_many_objects_holds_them_all() {
    let mut seed: u64 = 12345;
    let mut next = move || {
        seed = seed.wrapping_mul(6364136223846793005).wrapping_add(1442695040888963407);
        ((seed >> 11) as f64) / ((1u64 << 53) as f64) * 20.0 - 10.0
    };
    for count in [5usize, 8, 13, 64, 101] {
        let objects: Vec<Entry> = (0..count)
            .map(|i| Entry::new(i, Some(unit_cube_at(next(), next(), next()))))
            .collect();
        let root = BVHNode::from_objects(objects.clone());
        let found = check_tree(&root, count);
        assert_eq!(found.len(), count);
        assert_eq!(ids(&found), (0..count).collect::<Vec<usize>>());
        let mut whole = objects[0].key_box();
        for e in &objects {
            whole = surrounding_box((whole, e.key_box()));
        }
        assert_eq!(root.bbox, whole);
    }
}

#[test]
fn tree_takes_the_origin_box_for_an_object_without_one() {
    let a = Entry::new(1, Some(unit_cube_at(5.0, 5.0, 5.0)));
    let b = Entry::new(2, None);
    let root = BVHNode::from_objects(vec![a, b]);
    assert_eq!(root.left, Child::Leaf(b));
    assert_eq!(root.bbox, cube((0.0, 0.0, 0.0), (6.0, 6.0, 6.0)));
}

#[test]
fn tree_from_a_list_is_the_tree_of_its_objects() {
    let a = Entry::new(1, Some(unit_cube_at(5.0, 5.0, 5.0)));
    let b = Entry::new(2, Some(unit_cube_at(-5.0, -5.0, -5.0)));
    let mut list = HittableList::new();
    list.add(a);
    list.add(b);
    let root = BVHNode::from_hittable_list(list);
    assert_eq!(root.left, Child::Leaf(b));
    assert_eq!(root.right, Child::Leaf(a));
    let mut out = AABB::default();
    assert!(root.bounding_box(&mut out));
    assert_eq!(out, cube((-5.0, -5.0, -5.0), (6.0, 6.0, 6.0)));
}

#[test]
fn list_new_add_clear() {
    let a = Entry::new(1, Some(unit_cube_at(0.0, 0.0, 0.0)));
    let b = Entry::new(2, None);
    let mut list = HittableList::new();
    assert!(list.objects.is_empty());
    list.add(a);
    list.add(b);
    assert_eq!(list.objects, vec![a, b]);
    list.clear();
    assert!(list.objects.is_empty());
    let single = HittableList::new_with_first_value(b);
    assert_eq!(single.objects, vec![b]);
}

#[test]
fn list_box_is_the_union_of_all_boxes() {
    let mut list = HittableList::new();
    list.add(Entry::new(1, Some(unit_cube_at(0.0, 0.0, 0.0))));
    list.add(Entry::new(2, Some(unit_cube_at(-3.0, 2.0, 0.5))));
    list.add(Entry::new(3, Some(unit_cube_at(1.0, -7.0, 4.0))));
    let mut out = AABB::default();
    assert!(list.bounding_box(&mut out));
    assert_eq!(out, cube((-3.0, -7.0, 0.0), (2.0, 3.0, 5.0)));
}

#[test]
fn empty_list_has_no_box() {
    let list = HittableList::new();
    let before = unit_cube_at(9.0, 9.0, 9.0);
    let mut out = before;
    assert!(!list.bounding_box(&mut out));
    assert_eq!(out, before);
}

#[test]
fn list_with_an_unbounded_object_has_no_box() {
    let mut list = HittableList::new();
    list.add(Entry::new(1, Some(unit_cube_at(0.0, 0.0, 0.0))));
    list.add(Entry::new(2, None));
    list.add(Entry::new(3, Some(unit_cube_at(1.0, 1.0, 1.0))));
    let before = unit_cube_at(9.0, 9.0, 9.0);
    let mut out = before;
    assert!(!list.bounding_box(&mut out));
    assert_eq!(out, before);
}

#[test]
fn divide_one_object() {
    let a = Entry::new(1, Some(unit_cube_at(5.0, 5.0, 5.0)));
    for axis in 0..4 {
        assert_eq!(divide(vec![a], axis), Division::One(a));
    }
}

#[test]
fn divide_two_objects_by_the_axis() {
    let a = Entry::new(1, Some(unit_cube_at(1.0, 9.0, 4.0)));
    let b = Entry::new(2, Some(unit_cube_at(2.0, 8.0, 4.0)));
    assert_eq!(divide(vec![a, b], 0), Division::Two(a, b));
    assert_eq!(divide(vec![b, a], 0), Division::Two(a, b));
    assert_eq!(divide(vec![a, b], 1), Division::Two(b, a));
    assert_eq!(divide(vec![b, a], 1), Division::Two(b, a));
    assert_eq!(divide(vec![a, b], 2), Division::Two(b, a));
    assert_eq!(divide(vec![b, a], 2), Division::Two(a, b));
    assert_eq!(divide(vec![a, b], 7), Division::Two(b, a));
}

#[test]
fn divide_many_objects_sorts_and_halves() {
    let at = [(3.0, 1.0, 0.0), (1.0, 2.0, 0.0), (5.0, 3.0, -1.0), (2.0, 5.0, 0.0), (4.0, 4.0, -1.0)];
    let e: Vec<Entry> = at
        .iter()
        .enumerate()
        .map(|(i, p)| Entry::new(i, Some(unit_cube_at(p.0, p.1, p.2))))
        .collect();
    assert_eq!(divide(e.clone(), 0), Division::Halves(vec![e[1], e[3]], vec![e[0], e[4], e[2]]));
    assert_eq!(divide(e.clone(), 1), Division::Halves(vec![e[0], e[1]], vec![e[2], e[4], e[3]]));
    assert_eq!(divide(e.clone(), 2), Division::Halves(vec![e[2], e[4]], vec![e[0], e[1], e[3]]));
    assert_eq!(divide(e.clone(), 3), Division::Halves(vec![e[0], e[1]], vec![e[2], e[3], e[4]]));
}

#[test]
fn divide_three_objects_gives_one_and_two() {
    let e: Vec<Entry> = (0..3).map(|i| Entry::new(i, Some(unit_cube_at(-(i as f64), 0.0, 0.0)))).collect();
    assert_eq!(divide(e.clone(), 0), Division::Halves(vec![e[2]], vec![e[1], e[0]]));
    assert_eq!(divide(e.clone(), 1), Division::Halves(vec![e[0]], vec![e[1], e[2]]));
}

#[test]
fn divide_orders_negative_keys_below_positive_ones() {
    let at = [0.5, -0.5, 1e-300, -1e300, 0.0, -2.0];
    let e: Vec<Entry> = at.iter().enumerate().map(|(i, x)| Entry::new(i, Some(unit_cube_at(*x, 0.0, 0.0)))).collect();
    assert_eq!(
        divide(e.clone(), 0),
        Division::Halves(vec![e[3], e[5], e[1]], vec![e[4], e[2], e[0]])
    );
}
