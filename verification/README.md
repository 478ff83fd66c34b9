# facecounter

Picks, among several live video streams, the one that shows the most faces.

- `src/face_selector.rs`: the face selecting aggregator element: which of the frames
  that arrive together is passed on, when the output is marked discontinuous, and the
  class description (metadata, caps, pad templates) and registration of the element.
- `src/selector_controller.rs`: the controller that switches an input selector to the
  pad with the most faces, at most once per switch interval (times in nanoseconds).
- `src/pipelines.rs`: the textual descriptions of the two pipelines; input `i` reads
  `face<i>.h264`, numbered from 0.
- `src/face_counter.rs`: frame dimensions handed to the face detector.
- `src/lib.rs`: the plugin entry point, listing the elements to register.
- `app/`: the GStreamer and OpenCV side: the element subclass, the face detector, the
  two pipelines and `main`.
