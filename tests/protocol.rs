use dirpost::codec::{
    decode_string, read_chunk, read_u64, string_len, write_buffer, write_string, write_u64,
    ProtocolError, BUFFER_SIZE,
};
use dirpost::path::{denormalize_name, denormalize_with, normalize_name, normalize_with};
use dirpost::receiver::{Event, Receiver};
use dirpost::role::{resolve_role, Role};
use dirpost::sender::{relative_name, write_end_of_transfer, write_file_header};

fn pseudo_random(n: usize) -> Vec<u8> {
    let mut x: u32 = 12345;
    let mut v = Vec::with_capacity(n);
    for _ in 0..n {
        x = x.wrapping_mul(1103515245).wrapping_add(12345);
        v.push((x >> 16) as u8);
    }
    v
}

fn send(files: &[(&str, Vec<u8>)], sep: char) -> Vec<u8> {
    let mut out = Vec::new();
    for (name, content) in files {
        write_file_header(&mut out, name, sep, content.len() as u64).unwrap();
        let mut buf = [0u8; BUFFER_SIZE];
        for piece in content.chunks(700) {
            buf[..piece.len()].copy_from_slice(piece);
            write_buffer(&mut out, &buf, piece.len() as u64).unwrap();
        }
    }
    write_end_of_transfer(&mut out);
    out
}

struct Received {
    files: Vec<(String, Vec<u8>)>,
    chunk_sizes: Vec<Vec<usize>>,
}

fn receive(wire: &[u8], root: &str, sep: char) -> Result<Received, ProtocolError> {
    let mut rx = Receiver::new(root.to_string(), sep);
    let mut pos = 0;
    let mut got = Received { files: Vec::new(), chunk_sizes: Vec::new() };
    while !rx.is_done() {
        let n = rx.wanted();
        assert!(pos + n <= wire.len(), "stream ended early");
        match rx.feed(&wire[pos..pos + n])? {
            Event::Nothing => {}
            Event::CreateFile(path) => {
                got.files.push((path, Vec::new()));
                got.chunk_sizes.push(Vec::new());
            }
            Event::Data(bytes) => {
                got.chunk_sizes.last_mut().unwrap().push(bytes.len());
                got.files.last_mut().unwrap().1.extend_from_slice(&bytes);
            }
            Event::Finished => {}
        }
        pos += n;
    }
    assert_eq!(pos, wire.len());
    Ok(got)
}

#[test]
fn u64_frame_is_big_endian() {
    let mut out = Vec::new();
    write_u64(&mut out, 0x0102_0304_0506_0708);
    assert_eq!(out, vec![1, 2, 3, 4, 5, 6, 7, 8]);
    assert_eq!(read_u64(&out), 0x0102_0304_0506_0708);
    let mut max = Vec::new();
    write_u64(&mut max, u64::MAX);
    assert_eq!(read_u64(&max), u64::MAX);
}

#[test]
fn string_frame_layout() {
    let mut out = vec![9];
    write_string(&mut out, "ab").unwrap();
    assert_eq!(out, vec![9, 0, 0, 0, 0, 0, 0, 0, 2, b'a', b'b']);
    let mut multi = Vec::new();
    write_string(&mut multi, "é").unwrap();
    assert_eq!(multi, vec![0, 0, 0, 0, 0, 0, 0, 2, 0xc3, 0xa9]);
}

#[test]
fn empty_string_is_refused() {
    let mut out = vec![7];
    assert_eq!(write_string(&mut out, ""), Err(ProtocolError::EmptyString));
    assert_eq!(out, vec![7]);
}

#[test]
fn write_buffer_takes_prefix_and_refuses_zero() {
    let mut buf = [0u8; BUFFER_SIZE];
    buf[0] = 10;
    buf[1] = 20;
    buf[2] = 30;
    let mut out = Vec::new();
    write_buffer(&mut out, &buf, 2).unwrap();
    assert_eq!(out, vec![10, 20]);
    assert_eq!(write_buffer(&mut out, &buf, 0), Err(ProtocolError::ZeroBuffer));
    assert_eq!(out, vec![10, 20]);
    write_buffer(&mut out, &buf, BUFFER_SIZE as u64).unwrap();
    assert_eq!(out.len(), 2 + BUFFER_SIZE);
}

#[test]
fn string_length_cap() {
    assert_eq!(string_len(0), Ok(0));
    assert_eq!(string_len(4095), Ok(4095));
    assert_eq!(string_len(4096), Err(ProtocolError::StringTooLong(4096)));
    assert_eq!(string_len(u64::MAX), Err(ProtocolError::StringTooLong(u64::MAX)));
}

#[test]
fn name_payload_must_be_utf8() {
    assert_eq!(decode_string(vec![b'h', b'i']), Ok("hi".to_string()));
    assert_eq!(decode_string(vec![0xff, 0xfe]), Err(ProtocolError::InvalidUtf8));
    assert_eq!(decode_string(vec![0xc3]), Err(ProtocolError::InvalidUtf8));
}

#[test]
fn chunk_read_refuses_zero() {
    assert_eq!(read_chunk(&[]), Err(ProtocolError::ZeroBuffer));
    assert_eq!(read_chunk(&[1, 2, 3]), Ok(vec![1, 2, 3]));
}

#[test]
fn separator_portability() {
    let wire = normalize_with("/sub/deep/b.bin", '/');
    assert_eq!(wire, "\0sub\0deep\0b.bin");
    assert!(!wire.contains('/'));
    assert_eq!(denormalize_with(&wire, '\\'), "\\sub\\deep\\b.bin");
    assert_eq!(denormalize_with(&wire, '/'), "/sub/deep/b.bin");
    let from_windows = normalize_with("\\sub\\b.bin", '\\');
    assert_eq!(from_windows, "\0sub\0b.bin");
    assert_eq!(denormalize_with(&from_windows, '/'), "/sub/b.bin");
}

#[test]
fn local_separator_round_trip() {
    let sep = std::path::MAIN_SEPARATOR;
    let name = format!("{}sub{}b.bin", sep, sep);
    let wire = normalize_name(name.clone());
    assert_eq!(wire, "\0sub\0b.bin");
    assert_eq!(denormalize_name(wire), name);
}

#[test]
fn relative_names() {
    assert_eq!(relative_name("/data/root/a.txt", "/data/root"), Some("/a.txt".to_string()));
    assert_eq!(relative_name("/data/root/sub/b.bin", "/data/root"), Some("/sub/b.bin".to_string()));
    assert_eq!(relative_name("/data/root", "/data/root"), None);
    assert_eq!(relative_name("/other/a.txt", "/data/root"), None);
    assert_eq!(relative_name("/da", "/data/root"), None);
}

#[test]
fn file_header_layout() {
    let mut out = Vec::new();
    write_file_header(&mut out, "/a", '/', 3).unwrap();
    assert_eq!(out, vec![0, 0, 0, 0, 0, 0, 0, 2, 0, b'a', 0, 0, 0, 0, 0, 0, 0, 3]);
    let mut none = Vec::new();
    assert_eq!(write_file_header(&mut none, "", '/', 3), Err(ProtocolError::EmptyString));
    assert!(none.is_empty());
}

#[test]
fn roles_from_flags() {
    assert_eq!(resolve_role("", false), Role::ListenReceive);
    assert_eq!(resolve_role("", true), Role::ListenSend);
    assert_eq!(resolve_role("example.org", false), Role::ConnectSend);
    assert_eq!(resolve_role("example.org", true), Role::ConnectReceive);
    assert!(Role::ListenSend.is_listener());
    assert!(Role::ListenSend.is_sending());
    assert!(!Role::ConnectReceive.is_listener());
    assert!(!Role::ConnectReceive.is_sending());
}

#[test]
fn round_trip_tree() {
    let b = pseudo_random(2000);
    let files = vec![("/a.txt", b"hello".to_vec()), ("/sub/b.bin", b.clone())];
    let wire = send(&files, '/');
    let got = receive(&wire, "/dest", '/').unwrap();
    assert_eq!(
        got.files,
        vec![("/dest/a.txt".to_string(), b"hello".to_vec()), ("/dest/sub/b.bin".to_string(), b)]
    );
    assert_eq!(got.chunk_sizes[1], vec![1024, 976]);
}

#[test]
fn round_trip_across_separators() {
    let files = vec![("\\sub\\c.txt", b"xyz".to_vec())];
    let wire = send(&files, '\\');
    let got = receive(&wire, "/dest", '/').unwrap();
    assert_eq!(got.files, vec![("/dest/sub/c.txt".to_string(), b"xyz".to_vec())]);
}

#[test]
fn empty_directory_sends_only_end_frame() {
    let wire = send(&[], '/');
    assert_eq!(wire, vec![0u8; 8]);
    let mut rx = Receiver::new("/dest".to_string(), '/');
    assert_eq!(rx.wanted(), 8);
    assert!(matches!(rx.feed(&wire), Ok(Event::Finished)));
    assert!(rx.is_done());
    assert_eq!(rx.wanted(), 0);
}

#[test]
fn chunk_boundaries_are_exact() {
    let big = pseudo_random(3072);
    let files = vec![("/big", big.clone()), ("/one", vec![42]), ("/zero", Vec::new())];
    let wire = send(&files, '/');
    assert_eq!(wire.len(), (8 + 4 + 8 + 3072) + (8 + 4 + 8 + 1) + (8 + 5 + 8) + 8);
    let got = receive(&wire, "/d", '/').unwrap();
    assert_eq!(got.files[0].1, big);
    assert_eq!(got.chunk_sizes[0], vec![1024, 1024, 1024]);
    assert_eq!(got.files[1].1, vec![42]);
    assert_eq!(got.chunk_sizes[1], vec![1]);
    assert_eq!(got.files[2], ("/d/zero".to_string(), Vec::new()));
    assert!(got.chunk_sizes[2].is_empty());
}

#[test]
fn oversized_name_is_refused_before_payload() {
    let mut wire = Vec::new();
    write_u64(&mut wire, 4096);
    let mut rx = Receiver::new("/dest".to_string(), '/');
    assert_eq!(rx.wanted(), 8);
    assert!(matches!(rx.feed(&wire), Err(ProtocolError::StringTooLong(4096))));
    assert_eq!(rx.wanted(), 8);
    assert!(!rx.is_done());
}

#[test]
fn largest_name_is_accepted() {
    let name = format!("/{}", "n".repeat(4094));
    let wire = send(&[(name.as_str(), vec![1, 2])], '/');
    let got = receive(&wire, "", '/').unwrap();
    assert_eq!(got.files, vec![(name, vec![1, 2])]);
}

#[test]
fn invalid_utf8_name_is_refused() {
    let mut wire = Vec::new();
    write_u64(&mut wire, 2);
    let mut rx = Receiver::new("/dest".to_string(), '/');
    assert!(matches!(rx.feed(&wire), Ok(Event::Nothing)));
    assert_eq!(rx.wanted(), 2);
    assert!(matches!(rx.feed(&[0xff, 0x00]), Err(ProtocolError::InvalidUtf8)));
}

#[test]
fn sessions_are_independent() {
    let files = vec![("/a.txt", b"one".to_vec()), ("/b.txt", pseudo_random(1500))];
    let wire = send(&files, '/');
    let mut first = Receiver::new("/x".to_string(), '/');
    let mut second = Receiver::new("/y".to_string(), '/');
    let (mut p1, mut p2) = (0usize, 0usize);
    let mut made1 = Vec::new();
    let mut made2 = Vec::new();
    while !first.is_done() || !second.is_done() {
        if !first.is_done() {
            let n = first.wanted();
            if let Event::CreateFile(p) = first.feed(&wire[p1..p1 + n]).unwrap() {
                made1.push(p);
            }
            p1 += n;
        }
        if !second.is_done() {
            let n = second.wanted();
            if let Event::CreateFile(p) = second.feed(&wire[p2..p2 + n]).unwrap() {
                made2.push(p);
            }
            p2 += n;
        }
    }
    assert_eq!(made1, vec!["/x/a.txt", "/x/b.txt"]);
    assert_eq!(made2, vec!["/y/a.txt", "/y/b.txt"]);
}
