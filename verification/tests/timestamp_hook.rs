use easyofd_signature::timestamp_hook::{ClosureTimeStampHook, TimeStampHook};

#[test]
fn closure_hook_returns_value() {
    let hook = ClosureTimeStampHook::new(|_sig: &[u8]| vec![0xDE, 0xAD]);
    assert_eq!(hook.apply(&[0x01]), vec![0xDE, 0xAD]);
}

#[test]
fn closure_hook_receives_signature() {
    let hook = ClosureTimeStampHook::new(|sig: &[u8]| sig.to_vec());
    let input = vec![0x01, 0x02, 0x03];
    assert_eq!(hook.apply(&input), input);
}

#[test]
fn trait_object_works() {
    let hook: Box<dyn TimeStampHook> = Box::new(ClosureTimeStampHook::new(|_: &[u8]| vec![0xFF]));
    assert_eq!(hook.apply(&[]), vec![0xFF]);
}
