use telnet_chat::rc4::{Rc4Key, Rc4State, KEY_SIZE_BYTES};

#[test]
fn new_state_starts_at_zero_with_a_full_key() {
    let st = Rc4State::new();
    assert_eq!(st.i, 0);
    assert_eq!(st.j, 0);
    assert_eq!(st.key.key.len(), KEY_SIZE_BYTES);
    assert_eq!(st.s.len(), KEY_SIZE_BYTES);
}

#[test]
fn key_wraps_its_bytes() {
    let bytes = vec![7u8; KEY_SIZE_BYTES];
    let key = Rc4Key::new(bytes.clone());
    assert_eq!(key.key, bytes);
}

#[test]
fn encrypt_then_decrypt_restores_the_input() {
    let mut st = Rc4State::new();
    let input: Vec<u8> = (0u8..=255).collect();
    let mut enciphered = vec![0u8; input.len()];
    st.encrypt(&input, &mut enciphered);
    let mut restored = vec![0u8; input.len()];
    st.decrypt(&enciphered, &mut restored);
    assert_eq!(restored, input);
}

#[test]
fn encrypt_is_deterministic_for_one_key() {
    let mut st = Rc4State::new();
    let input = b"attack at dawn".to_vec();
    let mut first = vec![0u8; input.len()];
    st.encrypt(&input, &mut first);
    let mut second = vec![0u8; input.len()];
    st.encrypt(&input, &mut second);
    // each call reschedules from the same key, so the keystream repeats
    assert_eq!(first, second);
}

#[test]
fn short_output_buffer_is_left_untouched() {
    let mut st = Rc4State::new();
    let input = vec![1u8, 2, 3, 4];
    let mut output = vec![9u8; 3];
    st.encrypt(&input, &mut output);
    assert_eq!(output, vec![9u8; 3]);
}

#[test]
fn long_output_buffer_keeps_its_tail() {
    let mut st = Rc4State::new();
    let input = vec![1u8, 2, 3, 4];
    let mut exact = vec![0u8; 4];
    st.encrypt(&input, &mut exact);
    let mut long = vec![9u8; 7];
    st.encrypt(&input, &mut long);
    assert_eq!(&long[..4], &exact[..]);
    assert_eq!(&long[4..], &[9u8, 9, 9]);
}

#[test]
fn empty_input_writes_nothing() {
    let mut st = Rc4State::new();
    let input: Vec<u8> = Vec::new();
    let mut output = vec![5u8; 2];
    st.encrypt(&input, &mut output);
    assert_eq!(output, vec![5u8, 5]);
}

#[test]
fn known_key_gives_the_expected_keystream() {
    // with an all-zero 256-byte key, the first eight keystream bytes of
    // RC4's schedule-then-generate are fixed; enciphering zeros exposes them
    let mut st = Rc4State {
        s: vec![0u8; KEY_SIZE_BYTES],
        i: 0,
        j: 0,
        key: Rc4Key::new(vec![0u8; KEY_SIZE_BYTES]),
    };
    let input = vec![0u8; 8];
    let mut output = vec![0u8; 8];
    st.encrypt(&input, &mut output);
    assert_eq!(output, vec![222u8, 24, 137, 65, 163, 55, 93, 58]);
}

#[test]
fn regenerating_the_key_keeps_a_full_key() {
    let mut st = Rc4State::new();
    st.generate_key();
    assert_eq!(st.key.key.len(), KEY_SIZE_BYTES);
    st.initialize();
    assert_eq!(st.key.key.len(), KEY_SIZE_BYTES);
}
