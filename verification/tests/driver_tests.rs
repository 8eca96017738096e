use autosplitter::driver::build_extraction_request;
use autosplitter::driver::SplitRequest;

fn request() -> SplitRequest {
    SplitRequest::new(120, 256, 10, String::from("track"), String::from("wav")).unwrap()
}

#[test]
fn valid_inputs_make_a_request() {
    let req = request();
    assert_eq!(req.bpm, 120);
    assert_eq!(req.chunk_count, 256);
    assert_eq!(req.fade_ms, 10);
    assert_eq!(req.source_base, "track");
    assert_eq!(req.source_ext, "wav");
}

#[test]
fn zero_bpm_is_rejected() {
    assert!(SplitRequest::new(0, 256, 10, String::from("track"), String::from("wav")).is_none());
}

#[test]
fn zero_chunk_count_is_rejected() {
    assert!(SplitRequest::new(120, 0, 10, String::from("track"), String::from("wav")).is_none());
}

#[test]
fn empty_base_name_is_rejected() {
    assert!(SplitRequest::new(120, 256, 10, String::new(), String::from("wav")).is_none());
}

#[test]
fn empty_extension_is_rejected() {
    assert!(SplitRequest::new(120, 256, 10, String::from("track"), String::new()).is_none());
}

#[test]
fn extraction_request_carries_window_fade_and_name() {
    let req = request();
    let r = build_extraction_request(&req, 4);
    assert_eq!(r.chunk.index, 4);
    assert_eq!(r.chunk.start.num, 240);
    assert_eq!(r.chunk.start.den, 480);
    assert_eq!(r.chunk.length.num, 60);
    assert_eq!(r.chunk.length.den, 480);
    assert_eq!(r.chunk.fade_start.num, 55200);
    assert_eq!(r.chunk.fade_start.den, 480_000);
    assert_eq!(r.chunk.fade_duration.num, 60);
    assert_eq!(r.chunk.fade_duration.den, 480);
    assert_eq!(r.output_name, "track_005.wav");
}

#[test]
fn extraction_requests_cover_every_chunk_with_distinct_names() {
    let req = request();
    let mut names = Vec::new();
    for i in 0..256 {
        let r = build_extraction_request(&req, i);
        assert_eq!(r.chunk.index, i);
        names.push(r.output_name);
    }
    names.sort();
    names.dedup();
    assert_eq!(names.len(), 256);
}
