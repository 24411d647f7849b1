use rustc_codegen_qir::buffer::{
    bytes_to_words, words_to_bytes, QirModuleBuffer, QirThinBuffer, WORD_SIZE,
};
use rustc_codegen_qir::errors::BuildError;

#[test]
fn module_buffer_data_is_the_payload() {
    let buffer = QirModuleBuffer(vec![9, 8, 7]);
    assert_eq!(buffer.data(), &[9, 8, 7]);
}

#[test]
fn thin_buffer_data_is_the_payload() {
    let buffer = QirThinBuffer(vec![1, 2]);
    assert_eq!(buffer.data(), &[1, 2]);
}

#[test]
fn words_are_little_endian() {
    let words = bytes_to_words(&[1, 2, 3, 4, 5, 6, 7, 8]).expect("length is a multiple of four");
    assert_eq!(words, vec![0x0403_0201, 0x0807_0605]);
}

#[test]
fn one_word_exact_value() {
    let words = bytes_to_words(&[0xff, 0, 0, 0]).expect("one word");
    assert_eq!(words, vec![255]);
}

#[test]
fn word_conversion_round_trips() {
    let bytes: Vec<u8> = (0..32).collect();
    let words = bytes_to_words(&bytes).expect("length is a multiple of four");
    assert_eq!(words_to_bytes(&words), bytes);
}

#[test]
fn empty_buffer_round_trips() {
    let words = bytes_to_words(&[]).expect("empty is a multiple of four");
    assert_eq!(words, Vec::<u32>::new());
    assert_eq!(words_to_bytes(&words), Vec::<u8>::new());
}

#[test]
fn words_to_bytes_round_trips_back() {
    let words = vec![0, 1, 0xdead_beef, u32::MAX];
    let bytes = words_to_bytes(&words);
    assert_eq!(bytes.len(), 4 * words.len());
    assert_eq!(bytes_to_words(&bytes).expect("aligned"), words);
}

#[test]
fn misaligned_length_is_a_size_mismatch() {
    for n in [1usize, 2, 3, 5, 6, 7, 9] {
        let bytes = vec![0u8; n];
        match bytes_to_words(&bytes) {
            Err(BuildError::BufferSizeMismatch { length, word_size }) => {
                assert_eq!(length, n);
                assert_eq!(word_size, WORD_SIZE);
            },
            _ => panic!("length {} must be rejected", n),
        }
    }
}
