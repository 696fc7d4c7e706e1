use lidart::landmarks::LandmarkMap;

#[test]
fn first_known_finds_earliest_known_tag() {
    let mut m: LandmarkMap<&str> = LandmarkMap::new();
    m.insert(7, "seven");
    m.insert(3, "three");
    assert_eq!(m.first_known(&[1, 3, 7]), Some(1));
    assert_eq!(m.first_known(&[7, 3]), Some(0));
    assert_eq!(m.first_known(&[1, 2]), None);
    assert_eq!(m.first_known(&[]), None);
}

#[test]
fn new_landmarks_get_pose_of_first_sighting_and_known_ones_keep_theirs() {
    let mut m: LandmarkMap<(usize, usize)> = LandmarkMap::new();
    m.insert(5, (100, 100));
    let ids = [5, 9, 4, 9];
    m.add_new_landmarks(&ids, |k| (ids[k], k));
    assert_eq!(m.len(), 3);
    assert_eq!(m.get(5), Some(&(100, 100)));
    assert_eq!(m.get(9), Some(&(9, 1)));
    assert_eq!(m.get(4), Some(&(4, 2)));
    assert!(m.contains(4));
    assert!(!m.contains(6));
    let mut all = m.ids();
    all.sort();
    assert_eq!(all, vec![4, 5, 9]);
}
