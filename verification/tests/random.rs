use kitties::random::draw;
use kitties::MemoryRuntime;
use kitties::Module;

fn rising_seed() -> [u8; 32] {
    let mut seed = [0u8; 32];
    for i in 0..32 {
        seed[i] = i as u8;
    }
    seed
}

#[test]
fn draw_is_the_digest_of_seed_sender_and_no_index() {
    assert_eq!(
        draw(&rising_seed(), 1, None),
        [250, 9, 114, 33, 97, 80, 91, 212, 5, 17, 116, 33, 59, 54, 184, 197]
    );
    assert_eq!(
        draw(&[0u8; 32], 0, None),
        [203, 196, 164, 177, 232, 177, 125, 51, 187, 110, 161, 156, 235, 158, 148, 34]
    );
}

#[test]
fn draw_is_the_digest_of_seed_sender_and_index() {
    assert_eq!(
        draw(&rising_seed(), 1, Some(0)),
        [94, 80, 91, 90, 18, 182, 220, 132, 96, 183, 117, 98, 211, 114, 166, 220]
    );
    assert_eq!(
        draw(&rising_seed(), 0x0102030405060708, Some(0x0A0B0C0D)),
        [246, 252, 23, 217, 224, 67, 72, 58, 183, 44, 211, 107, 73, 3, 188, 197]
    );
}

#[test]
fn draw_differs_from_sender_to_sender() {
    assert_eq!(
        draw(&rising_seed(), 2, Some(0)),
        [5, 77, 52, 14, 68, 154, 246, 140, 14, 19, 15, 10, 29, 166, 200, 110]
    );
    assert_ne!(draw(&rising_seed(), 1, Some(0)), draw(&rising_seed(), 2, Some(0)));
}

#[test]
fn draw_agrees_with_the_hash_of_the_bytes_laid_out_by_hand() {
    let seed = rising_seed();
    let mut payload = Vec::new();
    payload.extend_from_slice(&seed);
    payload.extend_from_slice(&77u64.to_le_bytes());
    payload.push(1);
    payload.extend_from_slice(&513u32.to_le_bytes());
    assert_eq!(draw(&seed, 77, Some(513)), sp_io::hashing::blake2_128(&payload));
}

#[test]
fn random_value_draws_from_the_host() {
    let mut module = Module::new(MemoryRuntime::new(10, rising_seed(), None));
    assert_eq!(
        module.random_value(&1),
        [250, 9, 114, 33, 97, 80, 91, 212, 5, 17, 116, 33, 59, 54, 184, 197]
    );
    assert_eq!(module.random_value(&1), module.random_value(&1));
    module.runtime_mut().set_extrinsic_index(Some(0));
    assert_eq!(
        module.random_value(&2),
        [5, 77, 52, 14, 68, 154, 246, 140, 14, 19, 15, 10, 29, 166, 200, 110]
    );
    module.runtime_mut().set_seed([0u8; 32]);
    module.runtime_mut().set_extrinsic_index(None);
    assert_eq!(
        module.random_value(&0),
        [203, 196, 164, 177, 232, 177, 125, 51, 187, 110, 161, 156, 235, 158, 148, 34]
    );
}
