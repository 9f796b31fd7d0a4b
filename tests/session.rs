use camera_pipeline::delivery::FrameQueue;
use camera_pipeline::error::PipelineError;
use camera_pipeline::formats::{camera_identity, yuv_stream_formats, LensFacing, StreamFormat, FORMAT_YUV_420_888};
use camera_pipeline::metrics::FrameRateCounter;
use camera_pipeline::session::{CaptureSession, NativeResource, SessionState};

fn ids() -> Vec<String> {
    vec!["0".to_string(), "1".to_string(), "2".to_string()]
}

fn streaming() -> CaptureSession {
    let mut s = CaptureSession::new();
    assert_eq!(s.open(&ids(), &"1".to_string(), true), Ok(1));
    assert_eq!(s.device_opened(), Ok(()));
    assert!(s.begin_preview().unwrap().is_empty());
    assert!(s.acquired(NativeResource::ImageReader));
    assert!(s.acquired(NativeResource::CaptureRequest));
    assert!(s.acquired(NativeResource::OutputTarget));
    assert!(s.acquired(NativeResource::SessionOutput));
    assert!(s.acquired(NativeResource::OutputContainer));
    assert!(s.acquired(NativeResource::CaptureSession));
    assert_eq!(s.session_ready(), Ok(()));
    s
}

#[test]
fn open_checks_permission_then_identity() {
    let mut s = CaptureSession::new();
    assert_eq!(s.open(&ids(), &"1".to_string(), false), Err(PipelineError::PermissionDenied));
    assert_eq!(s.state(), SessionState::Closed);
    assert_eq!(s.open(&ids(), &"7".to_string(), true), Err(PipelineError::DeviceNotFound));
    assert_eq!(s.state(), SessionState::Closed);
    assert_eq!(s.open(&ids(), &"2".to_string(), true), Ok(2));
    assert_eq!(s.state(), SessionState::Opening);
    assert_eq!(s.camera(), Some(2));
    assert_eq!(s.open(&ids(), &"2".to_string(), true), Err(PipelineError::DeviceOpenFailed));
}

#[test]
fn preview_needs_an_open_device() {
    let mut s = CaptureSession::new();
    assert_eq!(s.begin_preview(), Err(PipelineError::SessionConfigurationFailed));
    assert_eq!(s.device_opened(), Err(PipelineError::DeviceOpenFailed));
    assert_eq!(s.session_ready(), Err(PipelineError::SessionConfigurationFailed));
    s.open(&ids(), &"0".to_string(), true).unwrap();
    assert_eq!(s.begin_preview(), Err(PipelineError::SessionConfigurationFailed));
    assert!(!s.acquired(NativeResource::ImageReader));
}

#[test]
fn streaming_accepts_frames() {
    let s = streaming();
    assert_eq!(s.state(), SessionState::Streaming);
    assert!(s.accepts_frames());
    assert!(s.holds(NativeResource::CameraDevice));
    assert!(s.holds(NativeResource::CaptureSession));
}

#[test]
fn objects_are_recorded_once() {
    let mut s = streaming();
    s.begin_preview().unwrap();
    assert!(s.acquired(NativeResource::ImageReader));
    assert!(!s.acquired(NativeResource::ImageReader));
    assert!(!s.acquired(NativeResource::CameraDevice));
}

#[test]
fn close_releases_in_reverse_order_once() {
    let mut s = streaming();
    let released = s.close();
    assert_eq!(
        released,
        vec![
            NativeResource::CaptureSession,
            NativeResource::OutputContainer,
            NativeResource::SessionOutput,
            NativeResource::OutputTarget,
            NativeResource::CaptureRequest,
            NativeResource::ImageReader,
            NativeResource::CameraDevice,
        ]
    );
    assert_eq!(s.state(), SessionState::Closed);
    assert!(s.close().is_empty());
    assert!(s.close().is_empty());
}

#[test]
fn close_without_preview_never_fails() {
    let mut fresh = CaptureSession::new();
    assert!(fresh.close().is_empty());
    assert!(fresh.close().is_empty());
    let mut opened = CaptureSession::new();
    opened.open(&ids(), &"0".to_string(), true).unwrap();
    opened.device_opened().unwrap();
    assert_eq!(opened.close(), vec![NativeResource::CameraDevice]);
    assert!(opened.close().is_empty());
}

#[test]
fn no_frames_after_teardown() {
    let mut s = streaming();
    s.close();
    assert!(!s.accepts_frames());
    let mut t = streaming();
    t.fail();
    assert_eq!(t.state(), SessionState::Error);
    assert!(!t.accepts_frames());
    assert_eq!(t.close().len(), 7);
    assert!(!t.accepts_frames());
}

#[test]
fn restarting_preview_releases_the_old_stream() {
    let mut s = streaming();
    let released = s.begin_preview().unwrap();
    assert_eq!(released.len(), 6);
    assert_eq!(released[0], NativeResource::CaptureSession);
    assert_eq!(released[5], NativeResource::ImageReader);
    assert!(!s.accepts_frames());
    assert!(s.holds(NativeResource::CameraDevice));
    assert_eq!(s.state(), SessionState::Configuring);
}

#[test]
fn per_frame_errors_do_not_stop_the_stream() {
    let mut s = streaming();
    assert!(s.frame_failed(PipelineError::FrameDiscarded));
    assert!(s.frame_failed(PipelineError::GpuSubmissionFailed));
    assert!(s.frame_failed(PipelineError::FrameAcquisitionFailed));
    assert!(s.accepts_frames());
    assert!(!s.frame_failed(PipelineError::ChannelClosed));
    assert!(!s.accepts_frames());
}

#[test]
fn stream_configurations_are_filtered() {
    let y = FORMAT_YUV_420_888;
    let entries = vec![
        y, 1280, 720, 0, //
        y, 640, 480, 1, // an input stream
        0x100, 1920, 1080, 0, // another format
        y, 320, 240, 0, //
        y, 9, // partial record
    ];
    assert_eq!(
        yuv_stream_formats(&entries),
        vec![
            StreamFormat { width: 1280, height: 720, format: y },
            StreamFormat { width: 320, height: 240, format: y },
        ]
    );
    assert!(yuv_stream_formats(&vec![]).is_empty());
}

#[test]
fn camera_identity_from_metadata() {
    let c = camera_identity(1, &vec![1], &vec![90]).unwrap();
    assert_eq!(c.index, 1);
    assert_eq!(c.facing, LensFacing::Back);
    assert_eq!(c.orientation_turns, 1);
    assert_eq!(camera_identity(0, &vec![0, 1], &vec![270]).unwrap().facing, LensFacing::Front);
    assert_eq!(camera_identity(0, &vec![2], &vec![0]).unwrap().facing, LensFacing::External);
    assert_eq!(camera_identity(0, &vec![], &vec![0]), Err(PipelineError::DeviceOpenFailed));
    assert_eq!(camera_identity(0, &vec![0], &vec![]), Err(PipelineError::DeviceOpenFailed));
    assert_eq!(camera_identity(0, &vec![5], &vec![0]), Err(PipelineError::DeviceOpenFailed));
    assert_eq!(camera_identity(0, &vec![0], &vec![45]), Err(PipelineError::DeviceOpenFailed));
}

#[test]
fn frame_rate_counter_reports_each_second() {
    let mut c = FrameRateCounter::new(0);
    for t in 1..=30u64 {
        assert_eq!(c.record_frame(t * 33), None);
    }
    assert_eq!(c.record_frame(1001), Some(31));
    assert_eq!(c.record_frame(1500), None);
    assert_eq!(c.record_frame(2001), None);
    assert_eq!(c.record_frame(2002), Some(3));
}

#[test]
fn queue_keeps_order_and_drops_oldest() {
    let mut q = FrameQueue::new(2);
    assert_eq!(q.pop(), None);
    assert!(!q.push(vec![1]));
    assert!(!q.push(vec![2]));
    assert!(q.push(vec![3]));
    assert_eq!(q.len(), 2);
    assert_eq!(q.pop(), Some(vec![2]));
    assert_eq!(q.pop(), Some(vec![3]));
    assert_eq!(q.pop(), None);
}

#[test]
fn absent_camera_is_not_found_even_with_no_cameras() {
    let mut s = CaptureSession::new();
    assert_eq!(s.open(&vec![], &"0".to_string(), true), Err(PipelineError::DeviceNotFound));
    assert_eq!(s.state(), SessionState::Closed);
}

#[test]
fn failed_configuration_releases_what_it_built_and_allows_retry() {
    let mut s = CaptureSession::new();
    s.open(&ids(), &"0".to_string(), true).unwrap();
    s.device_opened().unwrap();
    assert_eq!(s.abort_preview(), Err(PipelineError::SessionConfigurationFailed));
    s.begin_preview().unwrap();
    assert!(s.acquired(NativeResource::ImageReader));
    assert!(s.acquired(NativeResource::CaptureRequest));
    assert_eq!(
        s.abort_preview(),
        Ok(vec![NativeResource::CaptureRequest, NativeResource::ImageReader])
    );
    assert_eq!(s.state(), SessionState::Open);
    assert!(s.holds(NativeResource::CameraDevice));
    assert!(!s.holds(NativeResource::ImageReader));
    assert!(s.begin_preview().unwrap().is_empty());
    assert!(s.acquired(NativeResource::ImageReader));
    s.fail();
    assert_eq!(s.abort_preview(), Ok(vec![NativeResource::ImageReader]));
    assert_eq!(s.state(), SessionState::Open);
    assert_eq!(s.close(), vec![NativeResource::CameraDevice]);
    assert!(s.close().is_empty());
}
