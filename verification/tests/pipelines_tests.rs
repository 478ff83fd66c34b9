use facecounter::pipelines::{
    decimal_string, opencv_pipeline_description, rs_pipeline_description, OPENCV_HEAD, RS_HEAD,
};

fn opencv_expected(streams_num: i32) -> String {
    const WIDTH: i32 = 360;
    const HEIGHT: i32 = 240;
    const FPS: i32 = 25;
    const XML: &str = "haarcascade_frontalface_alt.xml";
    let mut pipe_string = format!(
        "input-selector name=selector sync-streams=true sync-mode=1 ! videoconvert ! queue  name=out ! autovideosink sync=false
        "
    );
    for i in 0..streams_num {
        pipe_string.push_str(&format!(
            "pushfilesrc location=face{index}.h264
            ! video/x-h264,width={width},height={height},framerate={fps}/1,stream-format=byte-stream
            ! h264parse
            ! avdec_h264
            ! videoconvert
            ! identity sync=true
            ! video/x-raw,width={width},height={height},framerate={fps}/1
            ! facedetect min-neighbors=2 scale-factor=1.1 updates=1 display=0 profile={xml}
            ! queue leaky=2
            ! selector.
            ",
            index = i,
            width = WIDTH,
            height = HEIGHT,
            fps = FPS,
            xml = XML
        ));
    }
    pipe_string
}

fn rs_expected(streams_num: i32) -> String {
    const WIDTH: i32 = 1080;
    const HEIGHT: i32 = 720;
    const FPS: i32 = 25;
    let mut pipe_string = format!("rsFaceSelector name=selector ! autovideosink");
    for i in 0..streams_num {
        pipe_string.push_str(&format!(
            "
            pushfilesrc location=face{index}.h264
            ! video/x-h264,width={width},height={height},framerate={fps}/1,stream-format=byte-stream
            ! h264parse
            ! avdec_h264
            ! videoconvert
            ! video/x-raw,format=I420,width={width},height={height},framerate={fps}/1
            ! identity sync=true
            ! queue leaky=2
            ! selector.
            ",
            index = i,
            width = WIDTH,
            height = HEIGHT,
            fps = FPS
        ));
    }
    pipe_string
}

#[test]
fn decimal_strings() {
    assert_eq!(decimal_string(0), "0");
    assert_eq!(decimal_string(7), "7");
    assert_eq!(decimal_string(10), "10");
    assert_eq!(decimal_string(305), "305");
    assert_eq!(decimal_string(u32::MAX), "4294967295");
}

#[test]
fn opencv_description_matches_three_inputs() {
    let d = opencv_pipeline_description(3);
    assert_eq!(d, opencv_expected(3));
    assert!(d.contains("location=face0.h264"));
    assert!(d.contains("location=face2.h264"));
    assert!(!d.contains("location=face3.h264"));
}

#[test]
fn rs_description_matches_twelve_inputs() {
    let d = rs_pipeline_description(12);
    assert_eq!(d, rs_expected(12));
    assert!(d.contains("location=face11.h264"));
}

#[test]
fn no_inputs_gives_the_head_alone() {
    assert_eq!(opencv_pipeline_description(0), OPENCV_HEAD);
    assert_eq!(rs_pipeline_description(-4), RS_HEAD);
    assert_eq!(opencv_pipeline_description(-1), opencv_expected(-1));
}

#[test]
fn single_input_description() {
    assert_eq!(rs_pipeline_description(1), rs_expected(1));
    assert_eq!(opencv_pipeline_description(1), opencv_expected(1));
}
