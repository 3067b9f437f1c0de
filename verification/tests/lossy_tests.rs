use webber::LossyVec;

#[test]
fn lossy_survivors_keep_order() {
    let lv: LossyVec<u32> = LossyVec::from(vec![Some(1), None, Some(2), None, None, Some(3)]);
    let seen: Vec<u32> = lv.iter().into_iter().map(|x| *x).collect();
    assert_eq!(seen, vec![1, 2, 3]);
}

#[test]
fn lossy_tolerance_count_matches_well_formed() {
    let slots = vec![Some("a"), None, Some("b"), None, Some("c")];
    let well_formed = slots.iter().filter(|s| s.is_some()).count();
    let lv: LossyVec<&str> = LossyVec::from(slots);
    assert_eq!(lv.iter().len(), well_formed);
}

#[test]
fn lossy_all_bad_yields_empty() {
    let lv: LossyVec<u8> = LossyVec::from(vec![None, None]);
    assert_eq!(lv.iter().len(), 0);
}

#[test]
fn lossy_purge_map_applies_in_order() {
    let lv: LossyVec<u32> = LossyVec::from(vec![None, Some(10), Some(20), None]);
    let doubled = lv.purge_map(double);
    assert_eq!(doubled, vec![20, 40]);
}

fn double(x: u32) -> u32 {
    x * 2
}

#[test]
fn lossy_purge_drops_absent_slots() {
    let lv: LossyVec<String> = LossyVec::from(vec![
        Some(String::from("keep")),
        None,
        Some(String::from("also")),
    ]);
    let kept = lv.purge();
    assert_eq!(kept, vec![String::from("keep"), String::from("also")]);
}
