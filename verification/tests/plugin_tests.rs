use facecounter::face_selector::RANK_NONE;
use facecounter::plugin_init;

#[test]
fn plugin_registers_the_face_selector() {
    let elements = plugin_init();
    assert_eq!(elements.len(), 1);
    assert_eq!(elements[0].name, "rsFaceSelector");
    assert_eq!(elements[0].rank, RANK_NONE);
}
