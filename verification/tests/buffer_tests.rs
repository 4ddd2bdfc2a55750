use bingrep::buffer_manager::BufferManager;
use bingrep::byte_stream::{ByteStream, MemStream};

#[test]
fn test_buffer_manager_creation() {
    let manager = BufferManager::new(1024, 512);
    assert_eq!(manager.main_buffer.len(), 1024);
    assert_eq!(manager.extra_buffer.len(), 512);
}

#[test]
fn test_read_into_main() {
    let mut manager = BufferManager::new(10, 5);
    let data = b"Hello World";
    let mut stream = MemStream::new(data.to_vec());

    let bytes_read = manager.read_into_main(&mut stream).unwrap();
    assert_eq!(bytes_read, 10); // Only 10 bytes fit in buffer
    assert_eq!(&manager.main_buffer[..bytes_read], b"Hello Worl");
}

#[test]
fn test_extra_buffer_resize() {
    let mut manager = BufferManager::new(10, 5);

    // Request larger buffer than initial size
    let buffer = manager.get_extra_buffer(20);
    assert_eq!(buffer.len(), 20);
}

#[test]
fn test_combine_buffers() {
    let mut manager = BufferManager::new(10, 10);
    manager.main_buffer[0..5].copy_from_slice(b"Hello");
    manager.extra_buffer[0..5].copy_from_slice(b"World");

    let combined = manager.combine_buffers(0, 5, 5);
    assert_eq!(combined.as_slice(), &b"HelloWorld"[..]);
}

#[test]
fn test_read_into_extra_grows_and_fills() {
    let mut manager = BufferManager::new(8, 2);
    let mut stream = MemStream::new(b"abcdefgh".to_vec());
    let n = manager.read_into_extra(&mut stream, 6).unwrap();
    assert_eq!(n, 6);
    assert_eq!(manager.get_extra_slice(6), b"abcdef");
}

#[test]
fn test_mem_stream_seek_and_read() {
    let mut stream = MemStream::new(b"0123456789".to_vec());
    let mut buf = vec![0u8; 4];
    stream.seek_to(6).unwrap();
    let n = stream.read_into(&mut buf, 4).unwrap();
    assert_eq!(n, 4);
    assert_eq!(&buf[..4], b"6789");
    assert_eq!(stream.stream_position().unwrap(), 10);
    let n2 = stream.read_into(&mut buf, 4).unwrap();
    assert_eq!(n2, 0);
    assert_eq!(stream.stream_len().unwrap(), 10);
}
