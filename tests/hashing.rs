use rust_exe::git_blob_sha1_hex;

#[test]
fn known_blob_ids() {
    assert_eq!(git_blob_sha1_hex(b""), "e69de29bb2d1d6434b8b29ae775ad8c2e48c5391");
    assert_eq!(git_blob_sha1_hex(b"hello\n"), "ce013625030ba8dba906f756967f9e9ca394464a");
    assert_eq!(git_blob_sha1_hex(b"test content\n"), "d670460b4b4aece5915caf5c68d12f560a9fe3e4");
}

#[test]
fn hashing_is_deterministic() {
    let body = b"fn main(){ println!(\"hello\"); }\n";
    let a = git_blob_sha1_hex(body);
    let b = git_blob_sha1_hex(&body.to_vec());
    assert_eq!(a, b);
    assert_eq!(a, "a8c1db5fa7c185f8f03171dd137ca8b1a9aa024e");
    assert_eq!(a.len(), 40);
}

#[test]
fn blob_message_frames_the_content() {
    assert_eq!(rust_exe::blob_message_bytes(b"hi"), b"blob 2\0hi".to_vec());
    assert_eq!(rust_exe::blob_message_bytes(b""), b"blob 0\0".to_vec());
    let long = vec![7u8; 1234];
    let framed = rust_exe::blob_message_bytes(&long);
    assert_eq!(&framed[..10], b"blob 1234\0");
    assert_eq!(framed.len(), 10 + 1234);
}

#[test]
fn hex_encoding_is_lowercase_two_digits_per_byte() {
    assert_eq!(rust_exe::hex_encode(&[0x00, 0xab, 0xff, 0x10]), "00abff10");
    assert_eq!(rust_exe::hex_encode(&[]), "");
}
