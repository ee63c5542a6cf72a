use learn_opengl::vertex_layout::{float_buffer_bytes, interleaved_layout, FLOAT_BYTES};

#[test]
fn position_and_texcoord_layout() {
    let layout = interleaved_layout(&vec![3, 2]).unwrap();
    assert_eq!(layout.stride, 20);
    assert_eq!(layout.offsets, vec![0, 12]);
}

#[test]
fn position_normal_texcoord_layout() {
    let layout = interleaved_layout(&vec![3, 3, 2]).unwrap();
    assert_eq!(layout.stride, 32);
    assert_eq!(layout.offsets, vec![0, 12, 24]);
}

#[test]
fn quad_with_colors_layout() {
    let layout = interleaved_layout(&vec![2, 3]).unwrap();
    assert_eq!(layout.stride, 20);
    assert_eq!(layout.offsets, vec![0, 8]);
}

#[test]
fn instance_matrix_layout() {
    // a mat4 instance attribute is four vec4 columns
    let layout = interleaved_layout(&vec![4, 4, 4, 4]).unwrap();
    assert_eq!(layout.stride, 64);
    assert_eq!(layout.offsets, vec![0, 16, 32, 48]);
}

#[test]
fn uniform_block_of_two_matrices() {
    let layout = interleaved_layout(&vec![16, 16]).unwrap();
    assert_eq!(layout.stride, 128);
    assert_eq!(layout.offsets, vec![0, 64]);
}

#[test]
fn empty_layout() {
    let layout = interleaved_layout(&vec![]).unwrap();
    assert_eq!(layout.stride, 0);
    assert!(layout.offsets.is_empty());
}

#[test]
fn layout_stride_limit() {
    let layout = interleaved_layout(&vec![536870911]).unwrap();
    assert_eq!(layout.stride, 2147483644);
    assert!(interleaved_layout(&vec![536870912]).is_none());
    assert!(interleaved_layout(&vec![u32::MAX, 1]).is_none());
    assert!(interleaved_layout(&vec![300000000, 300000000]).is_none());
}

#[test]
fn layout_is_packed() {
    let components = vec![3, 3, 2, 4];
    let layout = interleaved_layout(&components).unwrap();
    for i in 0..components.len() - 1 {
        assert_eq!(layout.offsets[i + 1], layout.offsets[i] + FLOAT_BYTES * components[i] as usize);
    }
    let last = components.len() - 1;
    assert_eq!(
        layout.offsets[last] + FLOAT_BYTES * components[last] as usize,
        layout.stride as usize
    );
}

#[test]
fn float_buffer_sizes() {
    assert_eq!(float_buffer_bytes(180), Some(720));
    assert_eq!(float_buffer_bytes(0), Some(0));
    assert_eq!(float_buffer_bytes(isize::MAX as usize / 4), Some(isize::MAX / 4 * 4));
    assert_eq!(float_buffer_bytes(isize::MAX as usize / 4 + 1), None);
}
