use ssh_forwarder::wire::{parse_ssh_string, read_name_list, read_ssh_string, write_name_list, write_ssh_string};
use ssh_forwarder::error::SshError;

#[test]
fn test_ssh_string() {
    let mut buf: Vec<u8> = Vec::new();
    write_ssh_string(&mut buf, b"hello");

    let mut data = &buf[..];
    let result = read_ssh_string(&mut data).unwrap();

    assert_eq!(&result[..], b"hello");
}

#[test]
fn test_name_list() {
    let mut buf: Vec<u8> = Vec::new();
    write_name_list(&mut buf, &["aes128", "aes256", "chacha20"]);

    let mut data = &buf[..];
    let result = read_name_list(&mut data).unwrap();

    assert_eq!(result, vec!["aes128", "aes256", "chacha20"]);
}

#[test]
fn test_parse_ssh_string() {
    let data = [
        0, 0, 0, 5, // length = 5
        b'h', b'e', b'l', b'l', b'o', // "hello"
        0, 0, 0, 5, // next string length = 5
        b'w', b'o', b'r', b'l', b'd', // "world"
    ];

    let (s1, rest) = parse_ssh_string(&data[..]).unwrap();
    assert_eq!(s1, b"hello");

    let (s2, _) = parse_ssh_string(rest).unwrap();
    assert_eq!(s2, b"world");
}

#[test]
fn ssh_string_wire_bytes() {
    let mut buf: Vec<u8> = vec![9];
    write_ssh_string(&mut buf, b"ab");
    assert_eq!(buf, vec![9, 0, 0, 0, 2, b'a', b'b']);
}

#[test]
fn read_string_errors() {
    let mut short: &[u8] = &[0, 0, 1];
    assert_eq!(read_ssh_string(&mut short), Err(SshError::StringLengthMissing));
    let mut cut: &[u8] = &[0, 0, 0, 5, b'a'];
    assert_eq!(read_ssh_string(&mut cut), Err(SshError::StringDataMissing));
    assert_eq!(cut, &[b'a'][..]);
    assert!(matches!(parse_ssh_string(&[0, 0, 0, 9, 1]), Err(SshError::StringDataMissing)));
}

#[test]
fn read_string_leaves_rest() {
    let bytes = [0, 0, 0, 1, b'x', 7, 8];
    let mut data: &[u8] = &bytes;
    assert_eq!(read_ssh_string(&mut data).unwrap(), vec![b'x']);
    assert_eq!(data, &[7, 8][..]);
}

#[test]
fn name_list_skips_empty_names_and_replaces_bad_utf8() {
    let mut buf: Vec<u8> = Vec::new();
    write_ssh_string(&mut buf, b",a,,b\xff,");
    let mut data = &buf[..];
    let names = read_name_list(&mut data).unwrap();
    assert_eq!(names, vec!["a".to_string(), "b\u{fffd}".to_string()]);
}

#[test]
fn name_list_wire_bytes() {
    let mut buf: Vec<u8> = Vec::new();
    write_name_list(&mut buf, &["a", "bc"]);
    assert_eq!(buf, vec![0, 0, 0, 4, b'a', b',', b'b', b'c']);
    let mut empty: Vec<u8> = Vec::new();
    write_name_list(&mut empty, &[]);
    assert_eq!(empty, vec![0, 0, 0, 0]);
}

#[test]
fn name_list_round_trip_keeps_order_and_rest() {
    let mut buf: Vec<u8> = Vec::new();
    write_name_list(&mut buf, &["curve25519-sha256", "ssh-rsa", "zlib@openssh.com"]);
    buf.extend_from_slice(&[7, 8]);
    let mut data = &buf[..];
    let names = read_name_list(&mut data).unwrap();
    assert_eq!(names, vec!["curve25519-sha256", "ssh-rsa", "zlib@openssh.com"]);
    assert_eq!(data, &[7u8, 8][..]);

    let mut empty: Vec<u8> = Vec::new();
    write_name_list(&mut empty, &[]);
    let mut data = &empty[..];
    assert_eq!(read_name_list(&mut data).unwrap(), Vec::<String>::new());
    assert!(data.is_empty());
}
