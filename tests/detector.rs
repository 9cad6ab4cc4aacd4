use pixel_change_check::detector::{DetectError, PCCDetector};
use pixel_change_check::types::{Frame, QualityConfig};

fn frame(id: u64, width: u32, height: u32, data: Vec<u8>) -> Frame {
    Frame { id, timestamp: 0, width, height, data }
}

fn black(id: u64, width: u32, height: u32) -> Frame {
    frame(id, width, height, vec![0; (width * height * 3) as usize])
}

fn set_pixel(f: &mut Frame, x: u32, y: u32, rgb: [u8; 3]) {
    let i = ((y * f.width + x) * 3) as usize;
    f.data[i..i + 3].copy_from_slice(&rgb);
}

#[test]
fn two_by_two_block_change_is_reported_tightly() {
    let detector = PCCDetector::new(QualityConfig::default(), 5, 4);
    let prev = black(1, 4, 4);
    let mut cur = black(2, 4, 4);
    for y in 2..4 {
        for x in 2..4 {
            set_pixel(&mut cur, x, y, [255, 255, 255]);
        }
    }
    let changes = detector.detect_changes(&prev, &cur).unwrap();
    assert_eq!(changes.len(), 1);
    let c = &changes[0];
    assert_eq!((c.x, c.y, c.width, c.height), (2, 2, 2, 2));
    assert_eq!(c.data.len(), 12);
    assert!(c.data.iter().all(|&b| b == 255));
}

#[test]
fn identical_frames_give_no_changes() {
    let detector = PCCDetector::default();
    let a = black(1, 40, 33);
    let b = black(2, 40, 33);
    assert!(detector.detect_changes(&a, &b).unwrap().is_empty());
}

#[test]
fn differences_within_threshold_are_ignored() {
    let detector = PCCDetector::new(QualityConfig::default(), 5, 4);
    let prev = black(1, 4, 4);
    let mut cur = black(2, 4, 4);
    set_pixel(&mut cur, 1, 1, [5, 0, 5]);
    assert!(detector.detect_changes(&prev, &cur).unwrap().is_empty());
    set_pixel(&mut cur, 1, 1, [0, 6, 0]);
    let changes = detector.detect_changes(&prev, &cur).unwrap();
    assert_eq!(changes.len(), 1);
    assert_eq!((changes[0].x, changes[0].y, changes[0].width, changes[0].height), (1, 1, 1, 1));
    assert_eq!(changes[0].data, vec![0, 6, 0]);
}

#[test]
fn a_decrease_counts_like_an_increase() {
    let detector = PCCDetector::new(QualityConfig::default(), 5, 4);
    let mut prev = black(1, 4, 4);
    set_pixel(&mut prev, 0, 3, [200, 200, 200]);
    let cur = black(2, 4, 4);
    let changes = detector.detect_changes(&prev, &cur).unwrap();
    assert_eq!(changes.len(), 1);
    assert_eq!((changes[0].x, changes[0].y, changes[0].width, changes[0].height), (0, 3, 1, 1));
    assert_eq!(changes[0].data, vec![0, 0, 0]);
}

#[test]
fn changes_come_in_row_major_block_order() {
    let detector = PCCDetector::new(QualityConfig::default(), 0, 2);
    let prev = black(1, 5, 3);
    let mut cur = black(2, 5, 3);
    set_pixel(&mut cur, 4, 2, [1, 2, 3]);
    set_pixel(&mut cur, 0, 2, [4, 5, 6]);
    set_pixel(&mut cur, 3, 0, [7, 8, 9]);
    set_pixel(&mut cur, 2, 1, [10, 11, 12]);
    let changes = detector.detect_changes(&prev, &cur).unwrap();
    let rects: Vec<(u32, u32, u32, u32)> = changes.iter().map(|c| (c.x, c.y, c.width, c.height)).collect();
    assert_eq!(rects, vec![(2, 0, 2, 2), (0, 2, 1, 1), (4, 2, 1, 1)]);
    assert_eq!(changes[0].data, vec![0, 0, 0, 7, 8, 9, 10, 11, 12, 0, 0, 0]);
    assert_eq!(changes[1].data, vec![4, 5, 6]);
    assert_eq!(changes[2].data, vec![1, 2, 3]);
}

#[test]
fn rectangles_stay_inside_clipped_edge_blocks() {
    let detector = PCCDetector::new(QualityConfig::default(), 5, 32);
    let prev = black(1, 35, 34);
    let mut cur = black(2, 35, 34);
    set_pixel(&mut cur, 34, 33, [255, 0, 0]);
    set_pixel(&mut cur, 32, 32, [0, 255, 0]);
    let changes = detector.detect_changes(&prev, &cur).unwrap();
    assert_eq!(changes.len(), 1);
    let c = &changes[0];
    assert_eq!((c.x, c.y, c.width, c.height), (32, 32, 3, 2));
    assert!(c.x + c.width <= 35 && c.y + c.height <= 34);
    assert_eq!(c.data.len(), 18);
    assert_eq!(&c.data[0..3], &[0, 255, 0]);
    assert_eq!(&c.data[15..18], &[255, 0, 0]);
}

#[test]
fn mismatched_dimensions_are_rejected() {
    let detector = PCCDetector::default();
    let a = black(1, 4, 4);
    let b = black(2, 4, 5);
    assert!(matches!(detector.detect_changes(&a, &b), Err(DetectError::DimensionMismatch)));
}

#[test]
fn malformed_frames_are_rejected() {
    let detector = PCCDetector::default();
    let a = black(1, 4, 4);
    let b = frame(2, 4, 4, vec![0; 47]);
    assert!(matches!(detector.detect_changes(&a, &b), Err(DetectError::MalformedFrame)));
}

#[test]
fn empty_frames_give_no_changes() {
    let detector = PCCDetector::default();
    let a = black(1, 0, 7);
    let b = black(2, 0, 7);
    assert!(detector.detect_changes(&a, &b).unwrap().is_empty());
}

#[test]
fn configure_keeps_threshold_and_block_size() {
    let mut detector = PCCDetector::default();
    assert_eq!(detector.threshold(), 5);
    assert_eq!(detector.block_size(), 32);
    let config = QualityConfig { target_fps: 15, max_fps: 30, quality_permille: 500, compression_level: 8 };
    detector.configure(config);
    assert_eq!(detector.config(), config);
    assert_eq!(detector.threshold(), 5);
    assert_eq!(detector.block_size(), 32);
}
