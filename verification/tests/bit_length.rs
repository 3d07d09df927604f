use bandersnatch_glv::get_bits;

#[test]
fn all_zero_bits_have_length_zero() {
    let bits = vec![false; 256];
    assert_eq!(get_bits(&bits), 0);
}

#[test]
fn top_bit_alone_gives_full_width() {
    let mut bits = vec![false; 256];
    bits[255] = true;
    assert_eq!(get_bits(&bits), 256);
}

#[test]
fn lowest_bit_alone_gives_one() {
    let mut bits = vec![false; 256];
    bits[0] = true;
    assert_eq!(get_bits(&bits), 1);
}

#[test]
fn length_is_one_past_the_highest_set_bit() {
    let mut bits = vec![false; 256];
    bits[3] = true;
    bits[100] = true;
    bits[127] = true;
    assert_eq!(get_bits(&bits), 128);
    bits[127] = false;
    assert_eq!(get_bits(&bits), 101);
}

#[test]
fn empty_sequence_has_length_zero() {
    let bits: Vec<bool> = Vec::new();
    assert_eq!(get_bits(&bits), 0);
}

#[test]
fn width_follows_the_sequence() {
    assert_eq!(get_bits(&[true, false, true]), 3);
    assert_eq!(get_bits(&[true, true, false]), 2);
    assert_eq!(get_bits(&[false, false, false]), 0);
    assert_eq!(get_bits(&[true]), 1);
}

#[test]
fn all_set_bits_give_full_width() {
    let bits = vec![true; 256];
    assert_eq!(get_bits(&bits), 256);
}
