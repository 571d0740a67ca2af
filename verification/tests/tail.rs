use ramon::tail::{Growth, Polled, TailState};

#[test]
fn a_tail_starts_at_the_end_of_the_file() {
    let tail = TailState::new(120);
    assert_eq!(tail.cursor(), 120);
}

#[test]
fn a_complete_line_is_yielded_without_its_newline() {
    let mut tail = TailState::new(0);
    assert_eq!(tail.poll(b"hello\n"), Polled::Chunk("hello".to_string()));
    assert_eq!(tail.cursor(), 6);
}

#[test]
fn only_what_is_new_is_yielded() {
    let mut tail = TailState::new(4);
    assert_eq!(tail.poll(b"old\nnew\n"), Polled::Chunk("new".to_string()));
    assert_eq!(tail.cursor(), 8);
}

#[test]
fn several_lines_come_as_one_chunk() {
    let mut tail = TailState::new(0);
    assert_eq!(tail.poll(b"one\ntwo\nthree\n"), Polled::Chunk("one\ntwo\nthree".to_string()));
    assert_eq!(tail.cursor(), 14);
}

#[test]
fn an_unfinished_line_is_held_back_until_its_newline_lands() {
    let mut tail = TailState::new(0);
    assert_eq!(tail.poll(b"par"), Polled::Incomplete);
    assert_eq!(tail.cursor(), 0);
    assert_eq!(tail.poll(b"partial li"), Polled::Incomplete);
    assert_eq!(tail.cursor(), 0);
    assert_eq!(tail.poll(b"partial line\n"), Polled::Chunk("partial line".to_string()));
    assert_eq!(tail.cursor(), 13);
}

#[test]
fn a_finished_line_followed_by_an_unfinished_one_is_held_back_too() {
    let mut tail = TailState::new(0);
    assert_eq!(tail.poll(b"done\nnot ye"), Polled::Incomplete);
    assert_eq!(tail.cursor(), 0);
    assert_eq!(tail.poll(b"done\nnot yet\n"), Polled::Chunk("done\nnot yet".to_string()));
}

#[test]
fn nothing_new_yields_nothing() {
    let mut tail = TailState::new(6);
    assert_eq!(tail.poll(b"hello\n"), Polled::Unchanged);
    assert_eq!(tail.cursor(), 6);
    let mut empty = TailState::new(0);
    assert_eq!(empty.poll(b""), Polled::Unchanged);
    assert_eq!(empty.cursor(), 0);
}

#[test]
fn a_truncated_file_sets_the_cursor_to_its_length() {
    let mut tail = TailState::new(100);
    assert_eq!(tail.poll(b"short\n"), Polled::Truncated);
    assert_eq!(tail.cursor(), 6);
    assert_eq!(tail.poll(b"short\nmore\n"), Polled::Chunk("more".to_string()));
    assert_eq!(tail.cursor(), 11);
    let mut emptied = TailState::new(5);
    assert_eq!(emptied.poll(b""), Polled::Truncated);
    assert_eq!(emptied.cursor(), 0);
}

#[test]
fn a_chunk_that_is_no_text_is_skipped() {
    let mut tail = TailState::new(0);
    assert_eq!(tail.poll(&[0xff, 0xfe, b'\n']), Polled::Undecodable);
    assert_eq!(tail.cursor(), 3);
    assert_eq!(tail.poll(&[0xff, 0xfe, b'\n', b'o', b'k', b'\n']), Polled::Chunk("ok".to_string()));
    assert_eq!(tail.cursor(), 6);
}

#[test]
fn text_beyond_ascii_is_decoded() {
    let mut tail = TailState::new(0);
    assert_eq!(tail.poll("grüße 🌍\n".as_bytes()), Polled::Chunk("grüße 🌍".to_string()));
    assert_eq!(tail.cursor(), "grüße 🌍\n".len() as u64);
}

#[test]
fn a_lone_newline_is_an_empty_chunk() {
    let mut tail = TailState::new(0);
    assert_eq!(tail.poll(b"\n"), Polled::Chunk(String::new()));
    assert_eq!(tail.cursor(), 1);
}

#[test]
fn the_chunks_of_a_growing_file_add_up_to_what_was_appended() {
    let writes: Vec<&[u8]> = vec![b"alpha\n", b"be", b"ta\nga", b"mma\n", b"", b"delta\n"];
    let mut file: Vec<u8> = b"before\n".to_vec();
    let start = file.len();
    let mut tail = TailState::new(start as u64);
    let mut taken: Vec<u8> = Vec::new();
    let mut last = tail.cursor();
    for write in writes {
        file.extend_from_slice(write);
        if let Polled::Chunk(text) = tail.poll(&file) {
            taken.extend_from_slice(text.as_bytes());
            taken.push(b'\n');
        }
        assert!(tail.cursor() >= last);
        last = tail.cursor();
    }
    assert_eq!(taken, file[start..].to_vec());
    assert_eq!(tail.cursor(), file.len() as u64);
}

#[test]
fn measure_compares_the_length_with_the_cursor() {
    let mut tail = TailState::new(10);
    assert_eq!(tail.measure(10), Growth::Unchanged);
    assert_eq!(tail.cursor(), 10);
    assert_eq!(tail.measure(15), Growth::Grown);
    assert_eq!(tail.cursor(), 10);
    assert_eq!(tail.pending(15), (10, 4));
    assert_eq!(tail.measure(3), Growth::Truncated);
    assert_eq!(tail.cursor(), 3);
}

#[test]
fn accept_moves_the_cursor_whatever_the_chunk_holds() {
    let mut tail = TailState::new(2);
    assert_eq!(tail.accept(7, b"text".to_vec()), Some("text".to_string()));
    assert_eq!(tail.cursor(), 7);
    assert_eq!(tail.accept(9, vec![0xc3]), None);
    assert_eq!(tail.cursor(), 9);
    tail.rewind();
    assert_eq!(tail.cursor(), 0);
}
