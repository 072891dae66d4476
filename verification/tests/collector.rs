use supervisor::collector::LineSplitter;

#[test]
fn splits_across_chunks() {
    let mut splitter = LineSplitter::new();
    let first = splitter.push_chunk(b"ab");
    assert!(first.is_empty());
    let second = splitter.push_chunk(b"c\nde\r\nf");
    assert_eq!(second, vec![b"abc".to_vec(), b"de".to_vec()]);
    assert_eq!(splitter.finish(), Some(b"f".to_vec()));
}

#[test]
fn strips_delimiters() {
    let mut splitter = LineSplitter::new();
    let lines = splitter.push_chunk(b"one\ntwo\n");
    assert_eq!(lines, vec![b"one".to_vec(), b"two".to_vec()]);
    assert_eq!(splitter.finish(), None);
}

#[test]
fn empty_lines_are_kept() {
    let mut splitter = LineSplitter::new();
    let lines = splitter.push_chunk(b"\n\na\n");
    assert_eq!(lines, vec![b"".to_vec(), b"".to_vec(), b"a".to_vec()]);
    assert_eq!(splitter.finish(), None);
}

#[test]
fn lone_carriage_return_stays() {
    let mut splitter = LineSplitter::new();
    let lines = splitter.push_chunk(b"a\rb\n");
    assert_eq!(lines, vec![b"a\rb".to_vec()]);
}
