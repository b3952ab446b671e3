use openshell_tls::replay::Replay;
use tokio::io::ReadBuf;

#[test]
fn replays_in_pieces() {
    let mut replay = Replay::new(b"hello".to_vec());
    let mut read = Vec::new();
    for room in [2, 0, 1, 10] {
        let mut space = vec![0u8; room];
        let mut buf = ReadBuf::new(&mut space);
        assert!(replay.read(&mut buf));
        read.push(buf.filled().to_vec());
    }
    assert_eq!(read, vec![b"he".to_vec(), b"".to_vec(), b"l".to_vec(), b"lo".to_vec()]);
}

#[test]
fn leaves_the_buffer_alone_after_the_prefix() {
    let mut replay = Replay::new(b"ab".to_vec());
    let mut space = [0u8; 8];
    let mut buf = ReadBuf::new(&mut space);
    buf.put_slice(b"xy");
    assert!(replay.read(&mut buf));
    assert!(!replay.read(&mut buf));
    assert_eq!(buf.filled(), b"xyab");
    assert_eq!(buf.remaining(), 4);
}

#[test]
fn empty_prefix_is_not_replayed() {
    let mut replay = Replay::new(Vec::new());
    let mut space = [0u8; 4];
    let mut buf = ReadBuf::new(&mut space);
    assert!(!replay.read(&mut buf));
    assert!(buf.filled().is_empty());
}
