use synacor_vm::image::{words_from_bytes, ImageError};
use synacor_vm::machine::{State, Vm};

#[test]
fn bytes_pair_up_little_endian() {
    let words = words_from_bytes(&[0x34, 0x12, 0xff, 0x7f]).unwrap();
    assert_eq!(words, vec![0x1234, 0x7fff]);
}

#[test]
fn an_empty_image_is_an_empty_memory() {
    let words = words_from_bytes(&[]).unwrap();
    assert!(words.is_empty());
}

#[test]
fn an_odd_byte_length_is_rejected() {
    assert_eq!(words_from_bytes(&[1, 2, 3]), Err(ImageError::OddLength));
}

#[test]
fn a_decoded_image_runs() {
    // Out 'A', Hlt as raw little-endian bytes.
    let words = words_from_bytes(&[19, 0, 65, 0, 0, 0]).unwrap();
    let mut vm = Vm::from_words(words);
    assert!(vm.run(10) == State::Halted);
    assert_eq!(vm.output().as_slice(), b"A");
}
