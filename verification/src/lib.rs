//! A GStreamer plugin that picks, among several video streams, the one that shows the
//! most faces, and the controller that drives an input selector to the same end.
use vstd::prelude::*;

pub mod face_counter;
pub mod face_selector;
pub mod pipelines;
pub mod selector_controller;

use crate::face_selector::{register, ElementRegistration, ELEMENT_NAME, RANK_NONE};

verus! {

/// The entry point of the plugin: the elements it registers, which is the face
/// selecting aggregator alone.
pub fn plugin_init() -> (elements: Vec<ElementRegistration>)
    ensures
        elements@.len() == 1,
        elements@[0].name@ == ELEMENT_NAME@,
        elements@[0].rank == RANK_NONE,
{
    let mut elements: Vec<ElementRegistration> = Vec::new();
    elements.push(register());
    elements
}

} // verus!
