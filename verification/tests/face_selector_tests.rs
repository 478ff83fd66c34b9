use facecounter::face_selector::{
    element_caps, element_metadata, frame_dims, pad_templates, register, select_most_faces,
    AggregateError, FaceSelector, PadDirection, PadPresence, Selection, IMAGE_HEIGHT, IMAGE_WIDTH,
    RANK_NONE,
};

fn names(list: &[&str]) -> Vec<String> {
    list.iter().map(|s| s.to_string()).collect()
}

#[test]
fn new_selector_starts_on_first_sink() {
    let s = FaceSelector::new();
    assert_eq!(s.last_selected_pad(), "sink_0");
}

#[test]
fn no_buffer_needs_data() {
    let mut s = FaceSelector::new();
    let r = s.aggregate(&Vec::new(), &Vec::new());
    assert_eq!(r, Err(AggregateError::NeedData));
    assert_eq!(s.last_selected_pad(), "sink_0");
}

#[test]
fn single_buffer_on_same_pad_is_continuous() {
    let mut s = FaceSelector::new();
    let r = s.aggregate(&names(&["sink_0"]), &Vec::new());
    assert_eq!(r, Ok(Selection { index: 0, discont: false }));
    assert_eq!(s.last_selected_pad(), "sink_0");
}

#[test]
fn single_buffer_on_other_pad_is_discontinuous() {
    let mut s = FaceSelector::new();
    let r = s.aggregate(&names(&["sink_2"]), &Vec::new());
    assert_eq!(r, Ok(Selection { index: 0, discont: true }));
    assert_eq!(s.last_selected_pad(), "sink_2");
}

#[test]
fn most_faces_wins() {
    let mut s = FaceSelector::new();
    let r = s.aggregate(&names(&["sink_0", "sink_1", "sink_2"]), &vec![1, 4, 2]);
    assert_eq!(r, Ok(Selection { index: 1, discont: true }));
    assert_eq!(s.last_selected_pad(), "sink_1");
}

#[test]
fn ties_go_to_the_last_pad() {
    let mut s = FaceSelector::new();
    let r = s.aggregate(&names(&["sink_0", "sink_1", "sink_2"]), &vec![3, 1, 3]);
    assert_eq!(r, Ok(Selection { index: 2, discont: true }));
    assert_eq!(s.last_selected_pad(), "sink_2");
}

#[test]
fn reselection_is_continuous() {
    let mut s = FaceSelector::new();
    let pads = names(&["sink_0", "sink_1"]);
    let counts = vec![0, 5];
    let first = s.aggregate(&pads, &counts);
    let second = s.aggregate(&pads, &counts);
    assert_eq!(first, Ok(Selection { index: 1, discont: true }));
    assert_eq!(second, Ok(Selection { index: 1, discont: false }));
}

#[test]
fn switching_back_is_discontinuous_again() {
    let mut s = FaceSelector::new();
    let pads = names(&["sink_0", "sink_1"]);
    assert_eq!(s.aggregate(&pads, &vec![0, 2]), Ok(Selection { index: 1, discont: true }));
    assert_eq!(s.aggregate(&pads, &vec![7, 2]), Ok(Selection { index: 0, discont: true }));
    assert_eq!(s.last_selected_pad(), "sink_0");
}

#[test]
fn select_most_faces_cases() {
    assert_eq!(select_most_faces(&Vec::new()), None);
    assert_eq!(select_most_faces(&vec![5]), Some(0));
    assert_eq!(select_most_faces(&vec![-1, -3]), Some(0));
    assert_eq!(select_most_faces(&vec![2, 9, 9, 1]), Some(2));
    assert_eq!(select_most_faces(&vec![0, 0, 0]), Some(2));
}

#[test]
fn frame_dims_are_qvga() {
    let d = frame_dims();
    assert_eq!((d.width, d.height), (320, 240));
    assert_eq!((IMAGE_WIDTH, IMAGE_HEIGHT), (320, 240));
}

#[test]
fn registration_names_the_element() {
    let r = register();
    assert_eq!(r.name, "rsFaceSelector");
    assert_eq!(r.rank, RANK_NONE);
    assert_eq!(RANK_NONE, 0);
}

#[test]
fn metadata_describes_the_element() {
    let m = element_metadata();
    assert_eq!(m.long_name, "Face-detecting selector");
    assert_eq!(m.classification, "Generic");
    assert_eq!(m.description, "Detects faces on sources and picks the source to output");
    assert_eq!(m.author, "Bartosz Błaszków <bbartosz06@gmail.com>");
}

#[test]
fn caps_and_templates() {
    let c = element_caps();
    assert_eq!(c.media_type, "video/x-raw");
    assert_eq!(c.format, "I420");
    assert_eq!((c.width, c.height, c.framerate_num, c.framerate_den), (320, 240, 30, 1));
    let t = pad_templates();
    assert_eq!(t.len(), 2);
    assert_eq!(t[0].name_template, "sink_%d");
    assert_eq!(t[0].direction, PadDirection::Sink);
    assert_eq!(t[0].presence, PadPresence::Request);
    assert!(t[0].aggregator_pad);
    assert_eq!(t[1].name_template, "src");
    assert_eq!(t[1].direction, PadDirection::Src);
    assert_eq!(t[1].presence, PadPresence::Always);
    assert!(!t[1].aggregator_pad);
    assert_eq!(t[1].caps.format, "I420");
}
