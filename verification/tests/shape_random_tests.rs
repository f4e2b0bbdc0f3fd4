use axis::matrix::Matrix;
use axis::random_provider::{choose_item, indexes, set_seed, shuffle, RandomSource};
use axis::Shape;

#[test]
fn test_choose() {
    let mut source = RandomSource::from_seed(7);
    for _ in 0..100 {
        let items = vec![1, 2, 3, 4, 5];
        let value = choose_item(&mut source, &items);
        assert!(items.contains(value));
    }
}

#[test]
fn test_shuffle() {
    let mut source = RandomSource::from_seed(7);
    let mut items = vec![1, 2, 3, 4, 5];
    shuffle(&mut source, &mut items);
    assert_ne!(items, vec![1, 2, 3, 4, 5]);
}

#[test]
fn test_indexes() {
    let mut source = RandomSource::from_seed(7);
    let indexes = indexes(&mut source, 10);
    assert_eq!(indexes.len(), 10);
    assert_ne!(indexes, vec![0, 1, 2, 3, 4, 5, 6, 7, 8, 9]);
}

#[test]
fn shuffle_keeps_elements() {
    let mut source = RandomSource::from_seed(11);
    let mut items = vec![3, 1, 4, 1, 5, 9, 2, 6];
    shuffle(&mut source, &mut items);
    let mut sorted = items.clone();
    sorted.sort();
    assert_eq!(sorted, vec![1, 1, 2, 3, 4, 5, 6, 9]);
}

#[test]
fn indexes_is_a_permutation() {
    let mut source = RandomSource::from_seed(13);
    let mut order = indexes(&mut source, 20);
    order.sort();
    let expected: Vec<usize> = (0..20).collect();
    assert_eq!(order, expected);
}

#[test]
fn seeded_source_is_deterministic() {
    let mut a = RandomSource::from_seed(42);
    let mut b = RandomSource::from_seed(42);
    for _ in 0..10 {
        assert_eq!(a.next_u64(), b.next_u64());
    }
    set_seed(&mut a, 42);
    let mut c = RandomSource::from_seed(42);
    assert_eq!(a.next_u64(), c.next_u64());
}

#[test]
fn range_draws_stay_in_range_and_vary() {
    let mut source = RandomSource::from_seed(99);
    let m = Matrix::<i32>::random((4, 4), 0, 1000, &mut source);
    let mut all_same = true;
    let first = m.get(0, 0).unwrap();
    for i in 0..4 {
        for j in 0..4 {
            let v = m.get(i, j).unwrap();
            assert!(0 <= v && v < 1000);
            if v != first {
                all_same = false;
            }
        }
    }
    assert!(!all_same);
}

#[test]
fn shape_reports_its_dimensions() {
    let s = Shape::new(vec![2, 3, 4]);
    assert_eq!(s.size(), 24);
    assert_eq!(s.dim(0), 2);
    assert_eq!(s.dim(2), 4);
    assert_eq!(s.rank(), 3);
    assert!(!s.is_empty());
    assert!(!s.is_scalar());
    assert!(!s.is_vector());
    assert!(!s.is_matrix());
    assert!(s.is_tensor());
    assert!(!s.is_square());

    let sq = Shape::new(vec![5, 5]);
    assert!(sq.is_matrix());
    assert!(sq.is_square());

    let v = Shape::new(vec![7]);
    assert!(v.is_vector());
    assert!(!v.is_scalar());

    let one = Shape::new(vec![1]);
    assert!(one.is_scalar());

    let none = Shape::new(vec![]);
    assert!(none.is_empty());
    assert_eq!(none.size(), 1);
}
