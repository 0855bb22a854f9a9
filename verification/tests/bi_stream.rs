use portredirect::bi_stream::BiStream;

/// A simple in-memory stream standing in for a reader or a writer.
struct MemoryStream {
    inner: Vec<u8>,
}

impl MemoryStream {
    fn new(data: Vec<u8>) -> Self {
        Self { inner: data }
    }
}

#[test]
fn test_display() {
    let reader = MemoryStream::new(Vec::new());
    let writer = MemoryStream::new(Vec::new());
    let bistream = BiStream::new(reader, writer, "DisplayTest".to_string());

    assert_eq!(bistream.display(), "BiStream{DisplayTest}");
}

#[test]
fn bistream_keeps_its_parts() {
    let reader = MemoryStream::new(b"hello world".to_vec());
    let writer = MemoryStream::new(Vec::new());
    let bistream = BiStream::new(reader, writer, "test_read".to_string());
    assert_eq!(bistream.read.inner, b"hello world".to_vec());
    assert!(bistream.write.inner.is_empty());
    assert_eq!(bistream.name, "test_read");
}

#[test]
fn bistream_display_of_empty_name() {
    let bistream = BiStream::new((), (), String::new());
    assert_eq!(bistream.display(), "BiStream{}");
}
