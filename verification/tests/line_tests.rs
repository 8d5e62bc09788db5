use scrollpane::line_window::LineWindow;
use scrollpane::scan::backward_scan_request;
use scrollpane::scan::find_prev_line_start;
use scrollpane::scan::read_line_len;
use scrollpane::scan::rtrim;

/// Simulate the reads the library requests against an in-memory file.
fn fill(w: &mut LineWindow, file: &Vec<u8>, rows: usize) {
    while w.needs_more(rows) {
        let n = read_line_len(file, w.last() as usize);
        if n == 0 {
            break;
        }
        w.extend(n as u64);
    }
}

fn forward(w: &mut LineWindow, file: &Vec<u8>) -> bool {
    let n = read_line_len(file, w.last() as usize);
    w.scroll_forward(n as u64)
}

fn backward(w: &mut LineWindow, file: &Vec<u8>) -> bool {
    if w.first() == 0 {
        return false;
    }
    let (seek, backstep) = backward_scan_request(w.first());
    let chunk = file[seek as usize..(seek + backstep) as usize].to_vec();
    w.scroll_backward_with(&chunk, seek);
    true
}

fn offsets(w: &LineWindow) -> Vec<u64> {
    let mut r = Vec::new();
    let mut i = 0;
    while i < w.len() {
        r.push(w.offset_at(i));
        i += 1;
    }
    r
}

fn line_at(file: &Vec<u8>, start: u64, end: u64) -> String {
    let mut bytes = file[start as usize..end as usize].to_vec();
    rtrim(&mut bytes);
    String::from_utf8(bytes).unwrap()
}

#[test]
fn three_line_file_in_two_rows() {
    // "one\n", "two\n", "three" — no trailing newline — in a viewport of
    // capacity 2.
    let file = b"one\ntwo\nthree".to_vec();
    let mut w = LineWindow::new();
    fill(&mut w, &file, 2);
    assert_eq!(offsets(&w), vec![0, 4, 8]);
    assert_eq!(line_at(&file, w.offset_at(0), w.offset_at(1)), "one");
    assert_eq!(line_at(&file, w.offset_at(1), w.offset_at(2)), "two");

    // scrolling down once shows ["two", "three"]
    assert!(forward(&mut w, &file));
    assert_eq!(offsets(&w), vec![4, 8, 13]);
    assert_eq!(line_at(&file, w.offset_at(0), w.offset_at(1)), "two");
    assert_eq!(line_at(&file, w.offset_at(1), w.offset_at(2)), "three");

    // a further down attempt hits end-of-file and changes nothing
    assert!(!forward(&mut w, &file));
    assert_eq!(offsets(&w), vec![4, 8, 13]);

    // scrolling up returns to ["one", "two"]; a second up is refused at
    // the start of the file with no change
    assert!(backward(&mut w, &file));
    assert_eq!(offsets(&w), vec![0, 4, 8]);
    assert!(!backward(&mut w, &file));
    assert_eq!(offsets(&w), vec![0, 4, 8]);
    assert_eq!(line_at(&file, w.offset_at(0), w.offset_at(1)), "one");
    assert_eq!(line_at(&file, w.offset_at(1), w.offset_at(2)), "two");
}

#[test]
fn forward_then_backward_restores_offsets() {
    let file = b"alpha\nbeta\ngamma\ndelta\nepsilon\n".to_vec();
    let mut w = LineWindow::new();
    fill(&mut w, &file, 2);
    let before = offsets(&w);
    assert_eq!(before, vec![0, 6, 11]);
    let k = 3;
    for _ in 0..k {
        assert!(forward(&mut w, &file));
    }
    assert_eq!(offsets(&w), vec![17, 23, 31]);
    for _ in 0..k {
        assert!(backward(&mut w, &file));
    }
    assert_eq!(offsets(&w), before);
}

#[test]
fn shrink_then_grow_restores_offsets() {
    let file = b"alpha\nbeta\ngamma\n".to_vec();
    let mut w = LineWindow::new();
    fill(&mut w, &file, 2);
    assert_eq!(offsets(&w), vec![0, 6, 11]);
    w.truncate_to(1);
    assert_eq!(offsets(&w), vec![0, 6]);
    fill(&mut w, &file, 2);
    assert_eq!(offsets(&w), vec![0, 6, 11]);
}

#[test]
fn short_file_leaves_window_short() {
    let file = b"only\n".to_vec();
    let mut w = LineWindow::new();
    fill(&mut w, &file, 10);
    assert_eq!(offsets(&w), vec![0, 5]);
    assert_eq!(w.line_count(), 1);
    assert!(w.needs_more(10));
}

#[test]
fn empty_file_cannot_scroll() {
    let file: Vec<u8> = Vec::new();
    let mut w = LineWindow::new();
    fill(&mut w, &file, 3);
    assert_eq!(offsets(&w), vec![0]);
    assert!(!forward(&mut w, &file));
    assert!(!backward(&mut w, &file));
}

#[test]
fn read_line_len_counts_through_newline() {
    let file = b"ab\ncd".to_vec();
    assert_eq!(read_line_len(&file, 0), 3);
    assert_eq!(read_line_len(&file, 3), 2);
    assert_eq!(read_line_len(&file, 5), 0);
}

#[test]
fn backward_scan_request_is_clamped_to_file_start() {
    // near the start the scan steps back only to offset 0, and always
    // skips the newline just before the line start
    assert_eq!(backward_scan_request(10), (0, 9));
    assert_eq!(backward_scan_request(1), (0, 0));
    // far into the file it steps back one full chunk
    assert_eq!(backward_scan_request(5000), (903, 4096));
}

#[test]
fn prev_line_start_is_just_past_last_newline() {
    let chunk = b"a\nb".to_vec();
    assert_eq!(find_prev_line_start(&chunk, 5), 7);
}

#[test]
fn prev_line_start_falls_back_to_file_start() {
    let chunk = b"abc".to_vec();
    assert_eq!(find_prev_line_start(&chunk, 5), 0);
}

#[test]
fn rtrim_strips_newline_and_carriage_return() {
    let mut a = b"abc\n".to_vec();
    rtrim(&mut a);
    assert_eq!(a, b"abc".to_vec());

    let mut b = b"abc\r\n".to_vec();
    rtrim(&mut b);
    assert_eq!(b, b"abc".to_vec());

    let mut c = b"abc".to_vec();
    rtrim(&mut c);
    assert_eq!(c, b"abc".to_vec());

    let mut d = b"\n".to_vec();
    rtrim(&mut d);
    assert_eq!(d, Vec::<u8>::new());

    // a carriage return with no newline after it stays
    let mut e = b"abc\r".to_vec();
    rtrim(&mut e);
    assert_eq!(e, b"abc\r".to_vec());
}

#[test]
fn window_scrolls_across_line_longer_than_one_read() {
    // lines of very different lengths still produce exact offsets
    let mut file = Vec::new();
    file.extend_from_slice(b"x\n");
    file.extend_from_slice(vec![b'y'; 100].as_slice());
    file.push(b'\n');
    file.extend_from_slice(b"z\n");
    let mut w = LineWindow::new();
    fill(&mut w, &file, 1);
    assert_eq!(offsets(&w), vec![0, 2]);
    assert!(forward(&mut w, &file));
    assert_eq!(offsets(&w), vec![2, 103]);
    assert!(forward(&mut w, &file));
    assert_eq!(offsets(&w), vec![103, 105]);
    assert!(backward(&mut w, &file));
    assert_eq!(offsets(&w), vec![2, 103]);
    assert!(backward(&mut w, &file));
    assert_eq!(offsets(&w), vec![0, 2]);
}
