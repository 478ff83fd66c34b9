use facecounter::selector_controller::{
    get_faces_num, FieldTypeMismatch, SelectorController, FACEDETECT_MESSAGE, SWITCH_INTERVAL_NS,
};

fn ms(millis: u64) -> u64 {
    millis * 1_000_000
}

#[test]
fn interval_is_counted_in_nanoseconds() {
    let mut c = SelectorController::new(0, ms(1000));
    c.update(1, 5);
    assert_eq!(c.pad_to_activate(ms(1200) - 1), None);
    assert_eq!(c.pad_to_activate(ms(1200)), Some(1));
}

#[test]
fn faces_num_from_list() {
    assert_eq!(get_faces_num(&Ok(Some(3))), 3);
    assert_eq!(get_faces_num(&Ok(Some(0))), 0);
}

#[test]
fn faces_num_missing_or_wrong_type_is_zero() {
    assert_eq!(get_faces_num(&Ok(None)), 0);
    assert_eq!(get_faces_num(&Err(FieldTypeMismatch)), 0);
}

#[test]
fn no_switch_within_interval() {
    let mut c = SelectorController::new(0, ms(1000));
    c.update(1, 5);
    assert_eq!(c.pad_to_activate(ms(1000)), None);
    assert_eq!(c.pad_to_activate(ms(1199)), None);
    assert_eq!(c.pad_to_activate(ms(1200)), Some(1));
}

#[test]
fn clock_going_back_counts_as_no_time() {
    let mut c = SelectorController::new(0, ms(1000));
    c.update(1, 5);
    assert_eq!(c.pad_to_activate(ms(10)), None);
}

#[test]
fn no_switch_when_active_has_most_faces() {
    let mut c = SelectorController::new(0, ms(0));
    c.update(0, 4);
    c.update(1, 2);
    c.update(2, 3);
    assert_eq!(c.pad_to_activate(ms(500)), None);
}

#[test]
fn switch_then_wait_again() {
    let mut c = SelectorController::new(0, ms(0));
    c.update(2, 1);
    assert_eq!(c.pad_to_activate(ms(300)), Some(2));
    c.update(1, 9);
    assert_eq!(c.pad_to_activate(ms(400)), None);
    assert_eq!(c.pad_to_activate(ms(499)), None);
    assert_eq!(c.pad_to_activate(ms(500)), Some(1));
    assert_eq!(c.pad_to_activate(ms(10_000)), None);
}

#[test]
fn switch_interval_is_200_ms() {
    assert_eq!(SWITCH_INTERVAL_NS, 200 * 1_000_000);
}

#[test]
fn ties_with_the_active_pad_switch_to_an_equal_pad_or_stay() {
    let mut c = SelectorController::new(0, ms(0));
    c.update(0, 2);
    c.update(1, 2);
    let r = c.pad_to_activate(ms(1000));
    assert!(r == None || r == Some(1));
}

#[test]
fn element_message_from_detector_updates_and_switches() {
    let mut c = SelectorController::new(7, ms(0));
    assert_eq!(FACEDETECT_MESSAGE, "facedetect");
    assert_eq!(c.on_element_message("facedetect", &Ok(Some(2)), 8, ms(250)), Some(8));
    assert_eq!(c.on_element_message("facedetect", &Ok(Some(3)), 7, ms(300)), None);
    assert_eq!(c.on_element_message("facedetect", &Ok(None), 8, ms(460)), Some(7));
}

#[test]
fn other_element_messages_are_ignored() {
    let mut c = SelectorController::new(7, ms(0));
    assert_eq!(c.on_element_message("level", &Ok(Some(2)), 8, ms(250)), None);
    // the ignored message recorded nothing: pad 7 still holds the most faces
    assert_eq!(c.pad_to_activate(ms(500)), None);
}

#[test]
fn ties_do_not_flap_without_new_counts() {
    let mut c = SelectorController::new(0, ms(0));
    c.update(0, 2);
    c.update(1, 2);
    c.update(2, 2);
    let first = c.pad_to_activate(ms(1000));
    assert!(first == None || first == Some(1) || first == Some(2));
    assert_eq!(c.pad_to_activate(ms(5000)), None);
    assert_eq!(c.pad_to_activate(ms(90_000)), None);
}
