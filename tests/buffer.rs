use pixel_change_check::buffer::{BufferError, FrameBuffer, FRAME_TIMEOUT_MS};
use pixel_change_check::types::{Frame, PixelChange};

const TEST_WIDTH: u32 = 1920;
const TEST_HEIGHT: u32 = 1080;

fn now_ms() -> u64 {
    std::time::SystemTime::now().duration_since(std::time::UNIX_EPOCH).unwrap().as_millis() as u64
}

fn small(id: u64, timestamp: u64) -> Frame {
    Frame { id, timestamp, width: 2, height: 2, data: vec![id as u8; 12] }
}

#[test]
fn test_frame_buffer() {
    let mut buffer = FrameBuffer::new(TEST_WIDTH, TEST_HEIGHT);
    let frame = Frame {
        id: 1,
        timestamp: now_ms(),
        width: TEST_WIDTH,
        height: TEST_HEIGHT,
        data: vec![0; (TEST_WIDTH * TEST_HEIGHT * 3) as usize],
    };
    buffer.push_frame(frame.duplicate());
    let next = buffer.next_frame();
    assert!(next.is_some());
    let update = PixelChange { x: 0, y: 0, width: 100, height: 100, data: vec![255; 100 * 100 * 3] };
    assert_eq!(buffer.apply_updates(vec![update]), Ok(true));
    let current = buffer.current_frame().unwrap();
    assert_eq!(current.data[0], 255);
    assert_eq!(current.data[(99 * TEST_WIDTH as usize + 99) * 3 + 2], 255);
    assert_eq!(current.data[100 * 3], 0);
    assert_eq!(current.data[(100 * TEST_WIDTH as usize) * 3], 0);
}

#[test]
fn pushing_four_frames_drops_the_first() {
    let mut buffer = FrameBuffer::new(2, 2);
    for id in 1..=4 {
        buffer.push_frame(small(id, 1000));
    }
    assert_eq!(buffer.len(), 3);
    let ids: Vec<u64> = (0..4).filter_map(|_| buffer.next_frame_at(1000)).map(|f| f.id).collect();
    assert_eq!(ids, vec![2, 3, 4]);
}

#[test]
fn stale_frames_are_skipped() {
    let mut buffer = FrameBuffer::new(2, 2);
    buffer.push_frame(small(1, 1000));
    buffer.push_frame(small(2, 4000));
    let now = 1000 + FRAME_TIMEOUT_MS + 1;
    let f = buffer.next_frame_at(now).unwrap();
    assert_eq!(f.id, 2);
    assert_eq!(buffer.current_frame().unwrap().id, 2);
    assert!(buffer.next_frame_at(now).is_none());
}

#[test]
fn a_frame_exactly_at_the_timeout_is_still_delivered() {
    let mut buffer = FrameBuffer::new(2, 2);
    buffer.push_frame(small(1, 1000));
    assert_eq!(buffer.next_frame_at(1000 + FRAME_TIMEOUT_MS).unwrap().id, 1);
}

#[test]
fn a_lone_stale_frame_gives_nothing() {
    let mut buffer = FrameBuffer::new(2, 2);
    buffer.push_frame(small(1, 0));
    assert!(buffer.next_frame_at(10_000).is_none());
    assert_eq!(buffer.len(), 0);
    assert!(buffer.current_frame().is_none());
}

#[test]
fn updates_without_a_current_frame_do_nothing() {
    let mut buffer = FrameBuffer::new(2, 2);
    buffer.push_frame(small(1, 0));
    let update = PixelChange { x: 0, y: 0, width: 1, height: 1, data: vec![9, 9, 9] };
    assert_eq!(buffer.apply_updates(vec![update]), Ok(false));
    assert_eq!(buffer.len(), 1);
    assert!(buffer.current_frame().is_none());
}

#[test]
fn updates_are_copied_row_by_row_in_order() {
    let mut buffer = FrameBuffer::new(3, 2);
    buffer.push_frame(Frame { id: 1, timestamp: 0, width: 3, height: 2, data: vec![0; 18] });
    buffer.next_frame_at(0).unwrap();
    let a = PixelChange { x: 1, y: 0, width: 2, height: 2, data: (1..=12).collect() };
    let b = PixelChange { x: 2, y: 1, width: 1, height: 1, data: vec![100, 101, 102] };
    assert_eq!(buffer.apply_updates(vec![a, b]), Ok(true));
    let data = buffer.current_frame().unwrap().data;
    assert_eq!(data, vec![0, 0, 0, 1, 2, 3, 4, 5, 6, 0, 0, 0, 7, 8, 9, 100, 101, 102]);
}

#[test]
fn an_update_outside_the_frame_changes_nothing() {
    let mut buffer = FrameBuffer::new(2, 2);
    buffer.push_frame(small(1, 0));
    buffer.next_frame_at(0).unwrap();
    let good = PixelChange { x: 0, y: 0, width: 1, height: 1, data: vec![9, 9, 9] };
    let bad = PixelChange { x: 1, y: 1, width: 2, height: 1, data: vec![9; 6] };
    assert_eq!(buffer.apply_updates(vec![good, bad]), Err(BufferError::PatchOutOfBounds));
    assert_eq!(buffer.current_frame().unwrap().data, vec![1; 12]);
    let short = PixelChange { x: 0, y: 0, width: 1, height: 1, data: vec![9, 9] };
    assert_eq!(buffer.apply_updates(vec![short]), Err(BufferError::PatchOutOfBounds));
}

#[test]
fn clear_empties_queue_and_current_frame() {
    let mut buffer = FrameBuffer::new(2, 2);
    buffer.push_frame(small(1, 0));
    buffer.push_frame(small(2, 0));
    buffer.next_frame_at(0).unwrap();
    buffer.clear();
    assert_eq!(buffer.len(), 0);
    assert!(buffer.current_frame().is_none());
    assert!(buffer.next_frame_at(0).is_none());
}
