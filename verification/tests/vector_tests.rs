use zeroproto::{Vector, VectorUtils};

#[test]
fn test_vector_basic_operations() {
    let mut vec = Vector::new();
    assert!(vec.is_empty());
    assert_eq!(vec.len(), 0);

    vec.push(1);
    vec.push(2);
    vec.push(3);

    assert!(!vec.is_empty());
    assert_eq!(vec.len(), 3);
    assert_eq!(vec.get(1), Some(&2));
}

#[test]
fn test_vector_iteration() {
    let vec = Vector::from(vec![1, 2, 3, 4, 5]);

    let collected: Vec<_> = vec.iter().copied().collect();
    assert_eq!(collected, vec![1, 2, 3, 4, 5]);
}

#[test]
fn test_vector_serialization_size() {
    let elements = vec![1u32, 2u32, 3u32];
    let size = VectorUtils::calculate_serialized_size(&elements);
    assert_eq!(size, 4 + 3 * 4); // count + 3 u32s
}

#[test]
fn test_empty_vector_serialization() {
    let elements: Vec<u32> = vec![];
    let size = VectorUtils::calculate_serialized_size(&elements);
    assert_eq!(size, 4); // Just the count field
}
