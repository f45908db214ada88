use clip_upload::chunk::{chunks, CHUNK_SIZE};

fn payload(n: usize) -> Vec<u8> {
    (0..n).map(|i| (i * 31 % 251) as u8).collect()
}

fn check(n: usize) {
    let data = payload(n);
    let cut = chunks(&data);
    assert_eq!(cut.len(), (n + 1023) / 1024);
    for (i, piece) in cut.iter().enumerate() {
        if i + 1 < cut.len() {
            assert_eq!(piece.len(), 1024);
        } else {
            assert_eq!(piece.len(), n - i * 1024);
            assert!(piece.len() >= 1);
        }
    }
    assert_eq!(cut.concat(), data);
}

#[test]
fn chunk_size_is_1024() {
    assert_eq!(CHUNK_SIZE, 1024);
}

#[test]
fn empty_payload_has_no_chunk() {
    assert_eq!(chunks(&Vec::new()), Vec::<Vec<u8>>::new());
    check(0);
}

#[test]
fn one_byte_is_one_chunk() {
    assert_eq!(chunks(&vec![9u8]), vec![vec![9u8]]);
    check(1);
}

#[test]
fn exactly_one_full_chunk() {
    check(1024);
    assert_eq!(chunks(&payload(1024)).len(), 1);
}

#[test]
fn one_byte_over_a_full_chunk() {
    check(1025);
    let cut = chunks(&payload(1025));
    assert_eq!(cut.len(), 2);
    assert_eq!(cut[1], vec![payload(1025)[1024]]);
}

#[test]
fn ten_thousand_bytes() {
    check(10000);
    let cut = chunks(&payload(10000));
    assert_eq!(cut.len(), 10);
    assert_eq!(cut[9].len(), 10000 - 9 * 1024);
}

#[test]
fn many_sizes_rejoin() {
    for n in [2, 1023, 2047, 2048, 2049, 4096, 5000] {
        check(n);
    }
}
