use inference_engine_rust::blob::{describable_shape, dims_from_raw, tensor_desc_for_shape};
use inference_engine_rust::layout::{convertible_shape_holds, Tensor};
use inference_engine_rust::utils::convert_layout_from_nhwc_to_nchw;

#[test]
fn tensor_new_checks_the_size() {
    assert!(Tensor::new(vec![2, 3], vec![0u8; 6]).is_some());
    assert!(Tensor::new(vec![2, 3], vec![0u8; 5]).is_none());
    assert!(Tensor::new(vec![], vec![7u8]).is_some());
    assert!(Tensor::new(vec![4, 0, 5], Vec::<u8>::new()).is_some());
    assert!(Tensor::new(vec![4, 0, 5], vec![1u8]).is_none());
    assert!(Tensor::new(vec![usize::MAX, 2, 0], Vec::<u8>::new()).is_some());
    assert!(Tensor::new(vec![usize::MAX, 2], vec![1u8]).is_none());
}

#[test]
fn converts_non_square_image_to_batch_of_channels() {
    // shape [height = 2, width = 3, channels = 2], element [h, w, c] = 100h + 10w + c
    let mut data = Vec::new();
    for h in 0..2u32 {
        for w in 0..3u32 {
            for c in 0..2u32 {
                data.push(100 * h + 10 * w + c);
            }
        }
    }
    let input = Tensor::new(vec![2, 3, 2], data).unwrap();
    let out = convert_layout_from_nhwc_to_nchw(&input);
    assert_eq!(out.dims, vec![1, 2, 2, 3]);
    assert_eq!(out.data, vec![0, 10, 20, 100, 110, 120, 1, 11, 21, 101, 111, 121]);
}

#[test]
fn converts_square_image_to_batch_of_channels() {
    // shape [height = 2, width = 2, channels = 3], element [h, w, c] = 100h + 10w + c
    let mut data = Vec::new();
    for h in 0..2u32 {
        for w in 0..2u32 {
            for c in 0..3u32 {
                data.push(100 * h + 10 * w + c);
            }
        }
    }
    let input = Tensor::new(vec![2, 2, 3], data).unwrap();
    let out = convert_layout_from_nhwc_to_nchw(&input);
    assert_eq!(out.dims, vec![1, 3, 2, 2]);
    assert_eq!(out.data, vec![0, 10, 100, 110, 1, 11, 101, 111, 2, 12, 102, 112]);
}

#[test]
fn converts_empty_images() {
    let input = Tensor::new(vec![3, 2, 0], Vec::<u8>::new()).unwrap();
    let out = convert_layout_from_nhwc_to_nchw(&input);
    assert_eq!(out.dims, vec![1, 0, 3, 2]);
    assert!(out.data.is_empty());
    let input = Tensor::new(vec![0, 5, 2, 9], Vec::<u8>::new()).unwrap();
    let out = convert_layout_from_nhwc_to_nchw(&input);
    assert_eq!(out.dims, vec![1, 2, 0, 5]);
    assert!(out.data.is_empty());
}

#[test]
fn reads_dimension_records() {
    let raw = [1, 3, 224, 224, 9, 9, 9, 9];
    assert_eq!(dims_from_raw(4, &raw), vec![1, 3, 224, 224]);
    assert_eq!(dims_from_raw(0, &raw), Vec::<usize>::new());
    assert_eq!(dims_from_raw(8, &raw), vec![1, 3, 224, 224, 9, 9, 9, 9]);
    assert_eq!(dims_from_raw(2, &[1, 1000, 0, 0, 0, 0, 0, 0]), vec![1, 1000]);
}

#[test]
fn describes_input_blob() {
    let desc = tensor_desc_for_shape(&[1, 3, 224, 224]);
    assert_eq!(desc.ranks, 4);
    assert_eq!(desc.dims, [1, 3, 224, 224, 0, 0, 0, 0]);
    assert_eq!(desc.byte_size, 602112);
    assert_eq!(dims_from_raw(desc.ranks, &desc.dims), vec![1, 3, 224, 224]);
}

#[test]
fn describes_only_four_extents() {
    let desc = tensor_desc_for_shape(&[2, 1, 3, 4, 5]);
    assert_eq!(desc.ranks, 5);
    assert_eq!(desc.dims, [2, 1, 3, 4, 0, 0, 0, 0]);
    assert_eq!(desc.byte_size, 96);
}

#[test]
fn convertible_shapes() {
    assert!(convertible_shape_holds(&vec![224, 224, 3]));
    assert!(convertible_shape_holds(&vec![224, 200, 3]));
    assert!(!convertible_shape_holds(&vec![2, 2]));
    assert!(convertible_shape_holds(&vec![5, 7, 0]));
    assert!(convertible_shape_holds(&vec![0, 5, 2, 9]));
    assert!(!convertible_shape_holds(&vec![2, 2, 3, 1]));
}

#[test]
fn describable_shapes() {
    assert!(describable_shape(&[1, 3, 224, 224]));
    assert!(!describable_shape(&[1, 3, 224]));
    assert!(!describable_shape(&[usize::MAX, 2, 0, 1]));
    assert!(!describable_shape(&[1, 1, 1, usize::MAX / 2]));
    assert!(describable_shape(&[1, 1, 1, usize::MAX / 4]));
}
