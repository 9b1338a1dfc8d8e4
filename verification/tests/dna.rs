use kitties::combine;
use kitties::combine_dna;

#[test]
fn combine_dna_takes_each_bit_from_the_parent_that_the_selector_names() {
    assert_eq!(combine_dna(0b1111_0000, 0b0000_1111, 0b1010_1010), 0b1010_0101);
    assert_eq!(combine_dna(0xAB, 0xCD, 0xF0), 0xAD);
}

#[test]
fn combine_dna_with_all_ones_gives_the_first_parent() {
    for dna1 in 0..=255u8 {
        assert_eq!(combine_dna(dna1, !dna1, 0xFF), dna1);
    }
}

#[test]
fn combine_dna_with_all_zeros_gives_the_second_parent() {
    for dna2 in 0..=255u8 {
        assert_eq!(combine_dna(!dna2, dna2, 0x00), dna2);
    }
}

#[test]
fn combine_mixes_byte_by_byte() {
    let dna1 = [0xFFu8; 16];
    let dna2 = [0x00u8; 16];
    let mut selector = [0u8; 16];
    for i in 0..16 {
        selector[i] = (i as u8) * 17;
    }
    assert_eq!(combine(&dna1, &dna2, &selector), selector);
    let child = combine(&dna2, &dna1, &selector);
    for i in 0..16 {
        assert_eq!(child[i], !selector[i]);
    }
}
