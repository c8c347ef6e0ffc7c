use asan_runtime::inputs::{
    BytesInput, HasLen, HasMutatorBytes, HasTargetBytes, InputConverter, NopInput,
    NopToTargetBytes, ResizableMutator, TargetBytesInputConverter, ToTargetBytes,
};

#[test]
fn a_nop_input_is_one_zero_byte_of_length_zero() {
    let input = NopInput::new();
    assert_eq!(input.target_bytes(), vec![0u8]);
    assert_eq!(input.len(), 0);
    assert!(input.is_empty());
    assert_eq!(NopInput::default().target_bytes(), vec![0u8]);
}

#[test]
fn a_bytes_input_holds_its_bytes() {
    let input = BytesInput::new(vec![1, 2, 3]);
    assert_eq!(input.len(), 3);
    assert!(!input.is_empty());
    assert_eq!(input.target_bytes(), vec![1, 2, 3]);
    assert_eq!(input.into_inner(), vec![1, 2, 3]);
    assert!(BytesInput::new(Vec::new()).is_empty());
}

#[test]
fn the_nop_converter_hands_out_the_target_bytes() {
    let mut c = NopToTargetBytes::new();
    assert_eq!(c.to_target_bytes(&NopInput::new()), vec![0u8]);
    assert_eq!(c.to_target_bytes(&BytesInput::new(vec![9, 8])), vec![9, 8]);
    let mut d = NopToTargetBytes::default();
    assert_eq!(d.to_target_bytes(&BytesInput::new(vec![])), Vec::<u8>::new());
}

#[test]
fn the_wrapper_makes_a_bytes_input_of_what_the_converter_returns() {
    let mut c = TargetBytesInputConverter::<NopInput, _>::new(NopToTargetBytes::new());
    let out = c.convert(NopInput::new()).unwrap();
    assert_eq!(out.into_inner(), vec![0u8]);

    let mut c = TargetBytesInputConverter::<BytesInput, _>::new(NopToTargetBytes::new());
    let out = c.convert(BytesInput::new(vec![1, 2])).unwrap();
    assert_eq!(out.into_inner(), vec![1, 2]);
    assert_eq!(c.convert_input(BytesInput::new(vec![7])).into_inner(), vec![7]);
    assert_eq!(c.convert(BytesInput::new(vec![])).unwrap().len(), 0);
}

#[test]
fn a_wrapper_can_be_made_from_its_converter() {
    let mut c: TargetBytesInputConverter<BytesInput, NopToTargetBytes> =
        NopToTargetBytes::new().into();
    let out = c.convert(BytesInput::new(vec![4, 5, 6])).unwrap();
    assert_eq!(out.into_inner(), vec![4, 5, 6]);
    let mut c = TargetBytesInputConverter::<BytesInput, _>::from(NopToTargetBytes::new());
    assert_eq!(c.convert(BytesInput::new(vec![1])).unwrap().into_inner(), vec![1]);
}

#[test]
fn resize_cuts_or_fills() {
    let mut v: Vec<u8> = vec![1, 2, 3];
    ResizableMutator::resize(&mut v, 5, 9);
    assert_eq!(v, vec![1, 2, 3, 9, 9]);
    ResizableMutator::resize(&mut v, 2, 7);
    assert_eq!(v, vec![1, 2]);
    ResizableMutator::resize(&mut v, 2, 7);
    assert_eq!(v, vec![1, 2]);
    ResizableMutator::resize(&mut v, 0, 7);
    assert!(v.is_empty());
    let mut w: Vec<u32> = Vec::new();
    ResizableMutator::resize(&mut w, 3, 0xdead);
    assert_eq!(w, vec![0xdead, 0xdead, 0xdead]);
}

#[test]
fn extend_appends() {
    let mut v: Vec<u8> = vec![1];
    ResizableMutator::extend(&mut v, &[2, 3]);
    assert_eq!(v, vec![1, 2, 3]);
    ResizableMutator::extend(&mut v, &[]);
    assert_eq!(v, vec![1, 2, 3]);
}

#[test]
fn splice_replaces_a_range() {
    let mut v: Vec<u8> = vec![1, 2, 3, 4, 5];
    let removed = ResizableMutator::splice(&mut v, 1, 3, vec![9, 9, 9]);
    assert_eq!(removed, vec![2, 3]);
    assert_eq!(v, vec![1, 9, 9, 9, 4, 5]);
    let removed = ResizableMutator::splice(&mut v, 0, 0, vec![7]);
    assert!(removed.is_empty());
    assert_eq!(v, vec![7, 1, 9, 9, 9, 4, 5]);
    let removed = ResizableMutator::splice(&mut v, 5, 7, vec![]);
    assert_eq!(removed, vec![4, 5]);
    assert_eq!(v, vec![7, 1, 9, 9, 9]);
    let removed = ResizableMutator::splice(&mut v, 0, 5, vec![0]);
    assert_eq!(removed, vec![7, 1, 9, 9, 9]);
    assert_eq!(v, vec![0]);
}

#[test]
fn drain_removes_a_range() {
    let mut v: Vec<u8> = vec![1, 2, 3, 4, 5];
    assert_eq!(ResizableMutator::drain(&mut v, 1, 4), vec![2, 3, 4]);
    assert_eq!(v, vec![1, 5]);
    assert_eq!(ResizableMutator::drain(&mut v, 2, 2), Vec::<u8>::new());
    assert_eq!(v, vec![1, 5]);
    assert_eq!(ResizableMutator::drain(&mut v, 0, 2), vec![1, 5]);
    assert!(v.is_empty());
}

#[test]
fn a_vector_offers_its_bytes_to_a_mutator() {
    let mut v: Vec<u8> = vec![1, 2, 3];
    assert_eq!(v.mutator_bytes(), &[1, 2, 3]);
    v.mutator_bytes_mut()[1] = 7;
    assert_eq!(v, vec![1, 7, 3]);
    assert_eq!(HasLen::len(&v), 3);
    assert!(!HasLen::is_empty(&v));
}
