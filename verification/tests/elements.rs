use mhoverlap::{BackgroundMesh, Partition, PartitionError, Scalar};

fn classified(values: &[f32], tolerance: f32) -> BackgroundMesh {
    let mut mesh = BackgroundMesh::new(3, vec![[0, 1, 2]]).unwrap();
    let distances: Vec<Scalar> = values.iter().map(|v| Scalar(v.to_bits())).collect();
    mesh.check_points(&distances, Scalar(tolerance.to_bits()));
    mesh
}

#[test]
fn an_element_with_all_points_on_the_surface_overlaps() {
    let mesh = classified(&[0.0, 0.0, 0.0, 3.0], 0.01);
    assert!(mesh.check_element(&[0, 1, 2]));
    assert!(mesh.check_element(&[2, 0, 1]));
}

#[test]
fn one_far_point_keeps_the_element_from_overlapping() {
    let mesh = classified(&[0.0, 0.0, 0.0, 3.0], 0.01);
    assert!(!mesh.check_element(&[3, 0, 1]));
    assert!(!mesh.check_element(&[0, 3, 1]));
    assert!(!mesh.check_element(&[0, 1, 3]));
}

#[test]
fn the_order_of_the_points_does_not_matter() {
    let mesh = classified(&[0.0, 5.0, 0.0, 5.0], 0.01);
    for element in [[0, 1, 2], [0, 2, 1], [1, 0, 2], [1, 2, 0], [2, 0, 1], [2, 1, 0]] {
        assert!(!mesh.check_element(&element));
    }
    assert!(mesh.check_element(&[0, 2, 0]));
    assert!(!mesh.check_element(&[1, 3, 1]));
}

#[test]
fn an_element_without_points_overlaps() {
    let mesh = classified(&[5.0], 0.01);
    assert!(mesh.check_element(&[]));
}

#[test]
fn elements_of_any_size_are_read_point_by_point() {
    let mesh = classified(&[0.0, 0.0, 0.0, 0.0, 1.0], 0.01);
    assert!(mesh.check_element(&[0, 1, 2, 3]));
    assert!(!mesh.check_element(&[0, 1, 2, 3, 4]));
    assert!(!mesh.check_element(&[4]));
}

#[test]
fn partition_lists_ids_from_one_in_order() {
    let mesh = classified(&[0.0, 0.0, 0.0, 1.0, 0.0], 0.01);
    let elements = vec![[0, 1, 2], [0, 1, 3], [4, 2, 0], [3, 3, 3], [1, 2, 4]];
    let partition = mesh.partition_elements(&elements).unwrap();
    assert_eq!(partition, Partition { overlap: vec![1, 3, 5], nooverlap: vec![2, 4] });
}

#[test]
fn partition_of_no_elements_is_empty() {
    let mesh = classified(&[0.0], 0.01);
    let partition = mesh.partition_elements(&vec![]).unwrap();
    assert_eq!(partition, Partition { overlap: vec![], nooverlap: vec![] });
}

#[test]
fn partition_covers_every_element_once() {
    let mesh = classified(&[0.0, 2.0, 0.0, 2.0], 1.0);
    let elements: Vec<[u32; 3]> =
        (0..64u32).map(|i| [i % 4, (i / 4) % 4, (i / 16) % 4]).collect();
    let partition = mesh.partition_elements(&elements).unwrap();
    assert_eq!(partition.overlap.len() + partition.nooverlap.len(), 64);
    for id in 1..=64usize {
        let element = elements[id - 1].map(|v| v as usize);
        let overlaps = mesh.check_element(&element);
        assert_eq!(partition.overlap.contains(&id), overlaps);
        assert_eq!(partition.nooverlap.contains(&id), !overlaps);
    }
    assert!(partition.overlap.windows(2).all(|w| w[0] < w[1]));
    assert!(partition.nooverlap.windows(2).all(|w| w[0] < w[1]));
}

#[test]
fn partition_stops_at_the_first_element_out_of_range() {
    let mesh = classified(&[0.0, 0.0, 0.0], 0.01);
    let elements = vec![[0, 1, 2], [0, 1, 3], [7, 7, 7]];
    assert_eq!(
        mesh.partition_elements(&elements),
        Err(PartitionError::PointOutOfRange { element: 1 })
    );
    let unclassified = BackgroundMesh::new(3, vec![[0, 1, 2]]).unwrap();
    assert_eq!(
        unclassified.partition_elements(&vec![[0, 0, 0]]),
        Err(PartitionError::PointOutOfRange { element: 0 })
    );
}
