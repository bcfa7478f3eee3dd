use plrs_xilinx::words::{count_words, store_word, take_word};

#[test]
fn count_words_rounds_up() {
    assert_eq!(count_words(0, 4), 0);
    assert_eq!(count_words(1, 4), 1);
    assert_eq!(count_words(4, 4), 1);
    assert_eq!(count_words(5, 4), 2);
    assert_eq!(count_words(8, 4), 2);
    assert_eq!(count_words(16, 8), 2);
    assert_eq!(count_words(17, 8), 3);
    assert_eq!(count_words(17, 16), 2);
    assert_eq!(count_words(63, 64), 1);
    assert_eq!(count_words(65, 64), 2);
}

#[test]
fn count_words_of_the_longest_run() {
    assert_eq!(count_words(usize::MAX, 1), usize::MAX);
    assert_eq!(count_words(usize::MAX, 4), usize::MAX / 4 + 1);
    assert_eq!(count_words(usize::MAX - 3, 4), usize::MAX / 4);
}

#[test]
fn take_word_of_whole_words() {
    let data = [1u8, 2, 3, 4, 5, 6, 7, 8];
    assert_eq!(take_word(&data, 4, 0), vec![1, 2, 3, 4]);
    assert_eq!(take_word(&data, 4, 1), vec![5, 6, 7, 8]);
    assert_eq!(take_word(&data, 8, 0), vec![1, 2, 3, 4, 5, 6, 7, 8]);
}

#[test]
fn take_word_fills_the_last_word_with_zeros() {
    let data = [1u8, 2, 3, 4, 5];
    assert_eq!(take_word(&data, 4, 1), vec![5, 0, 0, 0]);
    assert_eq!(take_word(&data, 8, 0), vec![1, 2, 3, 4, 5, 0, 0, 0]);
    assert_eq!(
        take_word(&data, 16, 0),
        vec![1, 2, 3, 4, 5, 0, 0, 0, 0, 0, 0, 0, 0, 0, 0, 0]
    );
}

#[test]
fn store_word_replaces_one_word() {
    let mut buffer = vec![0xeeu8; 12];
    store_word(&mut buffer, 4, 1, &[1, 2, 3, 4]);
    assert_eq!(buffer, vec![0xee, 0xee, 0xee, 0xee, 1, 2, 3, 4, 0xee, 0xee, 0xee, 0xee]);
    store_word(&mut buffer, 4, 0, &[9, 8, 7, 6]);
    assert_eq!(buffer, vec![9, 8, 7, 6, 1, 2, 3, 4, 0xee, 0xee, 0xee, 0xee]);
}

#[test]
fn store_word_of_the_last_word() {
    let mut buffer = vec![0u8; 16];
    store_word(&mut buffer, 8, 1, &[1, 2, 3, 4, 5, 6, 7, 8]);
    assert_eq!(buffer, vec![0, 0, 0, 0, 0, 0, 0, 0, 1, 2, 3, 4, 5, 6, 7, 8]);
}

#[test]
fn taken_words_stored_again_give_the_bytes() {
    let data: Vec<u8> = (1..=21).collect();
    let count = count_words(data.len(), 8);
    let mut buffer = vec![0xffu8; count * 8];
    for index in 0..count {
        let word = take_word(&data, 8, index);
        store_word(&mut buffer, 8, index, &word);
    }
    assert_eq!(&buffer[..21], &data[..]);
    assert_eq!(&buffer[21..], &[0, 0, 0]);
}
