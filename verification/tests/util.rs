use elf2tab::util::{align_down, align_to, amount_alignment_needed, do_pad};

#[test]
pub fn keeps_aligned_values() {
    let result = align_to(8, 4);

    assert_eq!(result, 8);
}

#[test]
pub fn aligns_to_the_next_box() {
    let result = align_to(3, 4);

    assert_eq!(result, 4);
}

#[test]
pub fn aligns_to_the_next_box_with_another_box_size() {
    let result = align_to(7, 8);

    assert_eq!(result, 8);
}

#[test]
pub fn computes_distance_to_lattice_point() {
    let result = amount_alignment_needed(7, 8);

    assert_eq!(result, 1);
}

#[test]
fn aligns_down_to_the_box_before() {
    assert_eq!(align_down(0x2000_4123, 256), 0x2000_4100);
    assert_eq!(align_down(512, 256), 512);
    assert_eq!(align_down(255, 256), 0);
}

#[test]
fn pads_with_zero_bytes() {
    let mut output = vec![1u8, 2];
    do_pad(&mut output, 3);
    assert_eq!(output, vec![1u8, 2, 0, 0, 0]);
    do_pad(&mut output, 0);
    assert_eq!(output.len(), 5);
    let mut long = Vec::new();
    do_pad(&mut long, 1000);
    assert_eq!(long, vec![0u8; 1000]);
}
