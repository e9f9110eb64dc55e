use gesture_timetrack::camera::{
    check_content_type, find, jpeg_dimensions, next_jpeg, no_frame, probe, FrameBuffer, NetworkCamera,
    ERROR_PAUSE_MAX_MS, ERROR_PAUSE_START_MS, RETRY_PAUSE_MS,
};
use gesture_timetrack::i18n::{CurrentLang, Lang};

fn jpeg(payload: &[u8]) -> Vec<u8> {
    let mut data = vec![0xFF, 0xD8, 0xFF];
    data.extend_from_slice(payload);
    data.extend_from_slice(&[0xFF, 0xD9]);
    data
}

#[test]
fn schneidet_einzelbilder_aus_dem_multipart_strom() {
    let mut buffer = Vec::new();
    buffer.extend_from_slice(b"--boundary\r\nContent-Type: image/jpeg\r\n\r\n");
    buffer.extend_from_slice(&jpeg(b"erstes"));
    buffer.extend_from_slice(b"\r\n--boundary\r\nContent-Type: image/jpeg\r\n\r\n");
    buffer.extend_from_slice(&jpeg(b"zweites"));

    let first = next_jpeg(&mut buffer).expect("erstes Bild");
    assert_eq!(first, jpeg(b"erstes"));
    let second = next_jpeg(&mut buffer).expect("zweites Bild");
    assert_eq!(second, jpeg(b"zweites"));
    assert!(next_jpeg(&mut buffer).is_none());
}

#[test]
fn wartet_auf_das_vollstaendige_bild() {
    let mut buffer = vec![0xFF, 0xD8, 0xFF, 0x01, 0x02];
    assert!(next_jpeg(&mut buffer).is_none());
    assert_eq!(buffer.len(), 5, "unvollständige Daten bleiben erhalten");

    buffer.extend_from_slice(&[0xFF, 0xD9]);
    assert!(next_jpeg(&mut buffer).is_some());
}

#[test]
fn ignoriert_vorspann_ohne_bilddaten() {
    let mut buffer = b"HTTP-Kopfzeilen ohne Bild".to_vec();
    assert!(next_jpeg(&mut buffer).is_none());
}

#[test]
fn erkennt_eine_webseite_als_falsche_antwort() {
    let de = CurrentLang { lang: Lang::De };
    let error = check_content_type(&de, Some("text/html; charset=utf-8")).unwrap_err();
    assert!(error.contains("Webseite"), "{error}");
    assert!(error.contains("belegt"), "Hinweis auf belegten Stream fehlt: {error}");

    assert!(check_content_type(&de, Some("multipart/x-mixed-replace;boundary=--dcmjpeg")).is_ok());
    assert!(check_content_type(&de, Some("image/jpeg")).is_ok());
    assert!(check_content_type(&de, None).is_ok(), "ohne Angabe einfach versuchen");
    assert!(check_content_type(&de, Some("application/json")).is_err());
}

#[test]
fn liest_bildmasse_aus_dem_jpeg() {
    let mut data = vec![0xFF, 0xD8];
    data.extend_from_slice(&[0xFF, 0xE0, 0x00, 0x04, 0x00, 0x00]);
    data.extend_from_slice(&[0xFF, 0xC0, 0x00, 0x11, 0x08]);
    data.extend_from_slice(&480u16.to_be_bytes());
    data.extend_from_slice(&640u16.to_be_bytes());
    data.extend_from_slice(&[0x03, 0x01, 0x22, 0x00, 0xFF, 0xD9]);

    assert_eq!(jpeg_dimensions(&data), Some((640, 480)));
    assert_eq!(jpeg_dimensions(&[0xFF, 0xD8, 0xFF, 0xD9]), None);
}

#[test]
fn find_starts_at_the_given_position() {
    let haystack = [1u8, 2, 3, 1, 2, 3];
    assert_eq!(find(&haystack, &[1, 2], 0), Some(0));
    assert_eq!(find(&haystack, &[1, 2], 1), Some(3));
    assert_eq!(find(&haystack, &[3, 4], 0), None);
    assert_eq!(find(&haystack, &[], 0), None);
    assert_eq!(find(&haystack, &[3], 6), None);
}

#[test]
fn the_frame_takes_the_preamble_with_it() {
    let mut buffer = b"abc".to_vec();
    buffer.extend_from_slice(&jpeg(b"x"));
    buffer.extend_from_slice(b"rest");
    let frame = next_jpeg(&mut buffer).unwrap();
    assert_eq!(frame, jpeg(b"x"));
    assert_eq!(buffer, b"rest".to_vec());
}

#[test]
fn wrong_content_type_is_named_in_the_message() {
    let en = CurrentLang { lang: Lang::En };
    let error = check_content_type(&en, Some("application/json")).unwrap_err();
    assert!(error.contains("application/json"), "{error}");
}

#[test]
fn the_buffer_hands_out_the_newest_frame() {
    let mut buffer = FrameBuffer::new();
    let mut chunk = jpeg(b"eins");
    chunk.extend_from_slice(&jpeg(b"zwei"));
    chunk.extend_from_slice(&[0xFF, 0xD8, 0xFF, 0x07]);
    let frame = buffer.push_chunk(&chunk).unwrap();
    assert_eq!(frame, jpeg(b"zwei"));
    assert_eq!(buffer.bytes, vec![0xFF, 0xD8, 0xFF, 0x07]);
    assert!(buffer.push_chunk(&[]).is_none());
    assert_eq!(buffer.push_chunk(&[0xFF, 0xD9]).unwrap(), vec![0xFF, 0xD8, 0xFF, 0x07, 0xFF, 0xD9]);
    assert!(buffer.finish().is_none());
}

#[test]
fn the_error_pause_doubles_up_to_the_maximum() {
    let mut camera = NetworkCamera::default();
    let id = camera.start();
    let (pause, next) = camera.record_attempt(id, Err("weg".to_string()), ERROR_PAUSE_START_MS);
    assert_eq!((pause, next), (700, 1400));
    assert_eq!(camera.error(), Some("weg".to_string()));
    let (pause, next) = camera.record_attempt(id, Err("weg".to_string()), next);
    assert_eq!((pause, next), (1400, 2800));
    let (pause, next) = camera.record_attempt(id, Err("weg".to_string()), next);
    assert_eq!((pause, next), (2800, ERROR_PAUSE_MAX_MS));
    let (pause, next) = camera.record_attempt(id, Ok(()), next);
    assert_eq!((pause, next), (RETRY_PAUSE_MS, ERROR_PAUSE_START_MS));
    assert_eq!(camera.error(), None);
}

#[test]
fn the_camera_keeps_its_error_but_drops_the_frame_on_stop() {
    let mut camera = NetworkCamera::default();
    let id = camera.ensure_started().expect("nothing ran");
    assert!(camera.ensure_started().is_none(), "a running fetch is not restarted");
    camera.record_frame(id, vec![1, 2, 3]);
    let _ = camera.record_attempt(id, Err("abgebrochen".to_string()), ERROR_PAUSE_START_MS);
    assert_eq!(camera.frame(), Some(vec![1, 2, 3]));

    camera.set_hold(true);
    camera.stop_unless_held();
    assert!(camera.is_running(), "the preview holds the connection");
    camera.set_hold(false);
    camera.stop_unless_held();
    assert!(!camera.is_running());
    assert_eq!(camera.frame(), None);
    assert_eq!(camera.error(), Some("abgebrochen".to_string()));
}

#[test]
fn the_probe_reports_size_and_kind() {
    let en = CurrentLang { lang: Lang::En };
    let mut test = probe(&en, Some("multipart/x-mixed-replace")).unwrap();
    assert!(test.stream);
    let mut data = vec![0xFF, 0xD8];
    data.extend_from_slice(&[0xFF, 0xC0, 0x00, 0x11, 0x08]);
    data.extend_from_slice(&480u16.to_be_bytes());
    data.extend_from_slice(&640u16.to_be_bytes());
    data.extend_from_slice(&[0x03, 0x01, 0x22, 0x00, 0xFF, 0xD9]);
    assert!(test.feed(&en, &data[..4]).is_none());
    let report = test.feed(&en, &data[4..]).unwrap();
    assert!(report.contains("640"), "{report}");
    assert!(report.contains("480"), "{report}");
    assert!(probe(&en, Some("text/html")).is_err());
    assert!(!no_frame(&en).is_empty());
}

#[test]
fn a_stopped_camera_drops_late_frames_and_keeps_its_last_error() {
    let mut camera = NetworkCamera::default();
    let id = camera.start();
    camera.record_frame(id, vec![1, 2, 3]);
    let _ = camera.record_attempt(id, Err("weg".to_string()), ERROR_PAUSE_START_MS);
    camera.stop();
    assert_eq!(camera.frame(), None);
    camera.record_frame(id, vec![4, 5, 6]);
    let _ = camera.record_attempt(id, Ok(()), ERROR_PAUSE_START_MS);
    assert_eq!(camera.frame(), None);
    assert_eq!(camera.error(), Some("weg".to_string()));
    let again = camera.start();
    assert_eq!(camera.error(), None);
    camera.record_frame(again, vec![7]);
    assert_eq!(camera.frame(), Some(vec![7]));
}

#[test]
fn only_the_latest_fetch_delivers() {
    let mut camera = NetworkCamera::default();
    let first = camera.start();
    camera.stop();
    let second = camera.start();
    assert_ne!(first, second);
    assert!(!camera.is_current(first));
    assert!(camera.is_current(second));
    camera.record_frame(first, vec![1]);
    let _ = camera.record_attempt(first, Err("alt".to_string()), ERROR_PAUSE_START_MS);
    assert_eq!(camera.frame(), None);
    assert_eq!(camera.error(), None);
    camera.record_frame(second, vec![2]);
    assert_eq!(camera.frame(), Some(vec![2]));
}
