use blake2_rfc::blake2b::blake2b;
use phase2::hasher::{hash_bytes, HashWriter};

fn reference(data: &[u8]) -> Vec<u8> {
    blake2b(64, &[], data).as_bytes().to_vec()
}

#[test]
fn the_hash_of_nothing_is_the_known_value() {
    let hash = HashWriter::new(None).into_hash();
    // BLAKE2b-512 of the empty message.
    let want: [u8; 8] = [0x78, 0x6a, 0x02, 0xf7, 0x42, 0x01, 0x59, 0x03];
    assert_eq!(hash[..8].to_vec(), want.to_vec());
    assert_eq!(hash.to_vec(), reference(&[]));
}

#[test]
fn the_hash_of_abc_is_the_known_value() {
    let hash = hash_bytes(b"abc");
    let want: [u8; 8] = [0xba, 0x80, 0xa5, 0x3f, 0x98, 0x1c, 0x4d, 0x0d];
    assert_eq!(hash[..8].to_vec(), want.to_vec());
    assert_eq!(hash.to_vec(), reference(b"abc"));
    assert_ne!(hash.to_vec(), hash_bytes(b"abd").to_vec());
}

#[test]
fn writing_in_pieces_hashes_the_whole() {
    let mut sink = HashWriter::new(None);
    assert_eq!(sink.write(b"hello "), 6);
    assert_eq!(sink.write(b""), 0);
    assert_eq!(sink.write(b"world"), 5);
    assert_eq!(sink.into_hash().to_vec(), reference(b"hello world"));
    let long = vec![0x5au8; 1000];
    let mut sink = HashWriter::new(None);
    sink.write(&long[..300]);
    sink.write(&long[300..]);
    assert_eq!(sink.into_hash().to_vec(), hash_bytes(&long).to_vec());
}

#[test]
fn a_fork_goes_its_own_way_from_the_shared_prefix() {
    let mut sink = HashWriter::new(None);
    sink.write(b"prefix");
    let mut fork = sink.fork();
    fork.write(b"-left");
    sink.write(b"-right");
    assert_eq!(fork.into_hash().to_vec(), reference(b"prefix-left"));
    assert_eq!(sink.into_hash().to_vec(), reference(b"prefix-right"));
}

#[test]
fn a_writer_over_a_buffer_forwards_what_it_hashes() {
    let mut sink = HashWriter::new(Some(vec![1u8, 2]));
    sink.write(b"abc");
    sink.write(b"de");
    let (buffer, hash) = sink.into_parts();
    assert_eq!(buffer, Some(vec![1u8, 2, b'a', b'b', b'c', b'd', b'e']));
    assert_eq!(hash.to_vec(), reference(b"abcde"));
    let (nothing, hash) = HashWriter::new(None).into_parts();
    assert_eq!(nothing, None);
    assert_eq!(hash.to_vec(), reference(&[]));
}
