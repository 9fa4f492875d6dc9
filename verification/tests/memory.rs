use efi_hda::bus::DeviceContext;
use efi_hda::command::Codec;
use efi_hda::context::{hda_supported, DeviceContexts};
use efi_hda::error::HdaError;
use efi_hda::ring::{CommandResponseBuffers, ResponseEntry};
use efi_hda::stream::{init_bdl, BufferDescriptorListWithBuffers, Loop};
use efi_hda::table::Table;
use efi_hda::window::{load_u32, store_bytes, store_u16, store_u32, store_u64};

#[test]
fn window_stores_low_byte_first() {
    let mut window = [0xeeu8; 16];
    store_u32(&mut window, 4, 0x1234_5678);
    assert_eq!(&window[..], &[
        0xee, 0xee, 0xee, 0xee, 0x78, 0x56, 0x34, 0x12, 0xee, 0xee, 0xee, 0xee, 0xee, 0xee, 0xee,
        0xee
    ]);
    assert_eq!(load_u32(&window, 4), 0x1234_5678);
    assert_eq!(load_u32(&window, 2), 0x5678_eeee);
    store_u16(&mut window, 0, 0xabcd);
    assert_eq!(&window[..3], &[0xcd, 0xab, 0xee]);
    store_u64(&mut window, 8, 0x0102_0304_0506_0708);
    assert_eq!(&window[8..], &[8, 7, 6, 5, 4, 3, 2, 1]);
    store_bytes(&mut window, 14, &[0x11, 0x22]);
    assert_eq!(&window[12..], &[4, 3, 0x11, 0x22]);
    store_bytes(&mut window, 16, &[]);
    assert_eq!(window[15], 0x22);
}

#[test]
fn commands_go_to_their_slots() {
    let mut ring = CommandResponseBuffers::new(0x1000, 0x2000, 2, 2).unwrap();
    let mut memory = vec![0u8; 1024];
    let slot = ring.send(0, 0, 0x002f_0004).unwrap() as usize;
    assert_eq!(ring.store_command(&mut memory, slot), Ok(()));
    assert_eq!(&memory[..12], &[0, 0, 0, 0, 0x04, 0x00, 0x2f, 0x00, 0, 0, 0, 0]);
    let slot = ring.send(254, 0, 0xdead_beef).unwrap() as usize;
    assert_eq!(slot, 255);
    assert_eq!(ring.store_command(&mut memory, slot), Ok(()));
    assert_eq!(&memory[1020..], &[0xef, 0xbe, 0xad, 0xde]);
}

#[test]
fn commands_outside_the_memory_are_refused() {
    let ring = CommandResponseBuffers::new(0x1000, 0x2000, 2, 2).unwrap();
    let mut memory = vec![7u8; 10];
    assert_eq!(ring.store_command(&mut memory, 2), Err(HdaError::InvalidParameter));
    assert_eq!(ring.store_command(&mut memory, 256), Err(HdaError::InvalidParameter));
    assert_eq!(memory, vec![7u8; 10]);
    assert_eq!(ring.store_command(&mut memory, 1), Ok(()));
    assert_eq!(memory, vec![7, 7, 7, 7, 0, 0, 0, 0, 7, 7]);
    let mut large = vec![7u8; 4096];
    assert_eq!(ring.store_command(&mut large, 256), Err(HdaError::InvalidParameter));
}

#[test]
fn responses_come_from_their_slots() {
    let mut memory = vec![0u8; 32];
    memory[8..16].copy_from_slice(&[0x86, 0x80, 0x34, 0x12, 0x10, 0, 0, 0]);
    assert_eq!(
        ResponseEntry::load(&memory, 1),
        Ok(ResponseEntry { result: 0x1234_8086, response_ex: 0x10 })
    );
    assert_eq!(ResponseEntry::load(&memory, 0), Ok(ResponseEntry { result: 0, response_ex: 0 }));
    assert_eq!(ResponseEntry::load(&memory, 3), Ok(ResponseEntry { result: 0, response_ex: 0 }));
    assert_eq!(ResponseEntry::load(&memory, 4), Err(HdaError::InvalidParameter));
    assert_eq!(ResponseEntry::load(&memory[..31], 3), Err(HdaError::InvalidParameter));
    assert_eq!(ResponseEntry::load(&[], 0), Err(HdaError::InvalidParameter));
}

#[test]
fn descriptors_and_buffers_go_to_their_places() {
    let samples: Vec<i16> = vec![1, -1, 0x1234, i16::MIN];
    let mut bdl = BufferDescriptorListWithBuffers::new();
    init_bdl(0x0123_4567_89ab_0000, &mut bdl).unwrap();
    let mut control = Loop::new();
    control.transfer(&mut bdl, &samples, 2048 * 2);
    let mut memory = vec![0x55u8; 32896];
    assert_eq!(bdl.store_descriptor(&mut memory, 1), Ok(()));
    assert_eq!(
        &memory[16..32],
        &[0x80, 0x10, 0xab, 0x89, 0x67, 0x45, 0x23, 0x01, 0x00, 0x10, 0, 0, 0, 0, 0, 0]
    );
    assert_eq!(&memory[..16], &[0x55; 16]);
    assert_eq!(bdl.store_descriptor(&mut memory, 7), Ok(()));
    // buffer 7 was not filled yet: its length is zero
    assert_eq!(
        &memory[112..128],
        &[0x80, 0x70, 0xab, 0x89, 0x67, 0x45, 0x23, 0x01, 0, 0, 0, 0, 0, 0, 0, 0]
    );
    assert_eq!(bdl.store_buffer(&mut memory, 1), Ok(()));
    let at = 128 + 4096;
    assert_eq!(&memory[at..at + 8], &[0x01, 0x00, 0xff, 0xff, 0x34, 0x12, 0x00, 0x80]);
    assert_eq!(&memory[at + 4088..at + 4096], &[0x01, 0x00, 0xff, 0xff, 0x34, 0x12, 0x00, 0x80]);
    assert_eq!(memory[at - 1], 0x55);
    assert_eq!(memory[at + 4096], 0x55);
}

#[test]
fn descriptors_and_buffers_outside_the_memory_are_refused() {
    let bdl = BufferDescriptorListWithBuffers::new();
    let mut memory = vec![0x55u8; 128 + 4096 + 4095];
    assert_eq!(bdl.store_descriptor(&mut memory, 8), Err(HdaError::InvalidParameter));
    assert_eq!(bdl.store_buffer(&mut memory, 8), Err(HdaError::InvalidParameter));
    assert_eq!(bdl.store_buffer(&mut memory, 1), Err(HdaError::InvalidParameter));
    assert_eq!(bdl.store_descriptor(&mut memory[..127], 0), Err(HdaError::InvalidParameter));
    assert!(memory.iter().all(|&b| b == 0x55));
    assert_eq!(bdl.store_buffer(&mut memory, 0), Ok(()));
    assert!(memory[128..128 + 4096].iter().all(|&b| b == 0));
    assert_eq!(bdl.store_descriptor(&mut memory[..128], 7), Ok(()));
}

#[test]
fn supported_controllers() {
    assert_eq!(hda_supported(0x8086, 0x2668), Ok(()));
    assert_eq!(hda_supported(0x8086, 0x27d8), Ok(()));
    assert_eq!(hda_supported(0x8086, 0x293e), Ok(()));
    assert_eq!(hda_supported(0x8086, 0xa170), Ok(()));
    assert_eq!(hda_supported(0x8086, 0x2415), Err(HdaError::Unsupported));
    assert_eq!(hda_supported(0x1022, 0x293e), Err(HdaError::Unsupported));
}

#[test]
fn contexts_by_handle() {
    let first = DeviceContext { codec: Codec(0), in_streams: 4, out_streams: 4 };
    let second = DeviceContext { codec: Codec(2), in_streams: 4, out_streams: 4 };
    let mut contexts = DeviceContexts::new();
    assert_eq!(contexts.unload(), Ok(()));
    assert_eq!(contexts.from_protocol(0x1000), Err(HdaError::InvalidParameter));
    contexts.register_device_context(0x1000, first);
    contexts.register_device_context(0x2000, second);
    assert_eq!(contexts.from_protocol(0x1000), Ok(first));
    assert_eq!(contexts.from_protocol(0x2000), Ok(second));
    assert_eq!(contexts.from_protocol(0x3000), Err(HdaError::InvalidParameter));
    assert_eq!(contexts.unload(), Err(HdaError::DeviceError));
    contexts.unregister_device_context(0x1000);
    assert_eq!(contexts.from_protocol(0x1000), Err(HdaError::InvalidParameter));
    assert_eq!(contexts.from_protocol(0x2000), Ok(second));
    contexts.unregister_device_context(0x1000);
    contexts.unregister_device_context(0x2000);
    assert_eq!(contexts.unload(), Ok(()));
}

#[test]
fn table_keeps_the_last_value_of_a_key() {
    let mut table: Table<u64, u8> = Table::new();
    assert!(table.is_empty());
    table.insert(5, 1);
    table.insert(6, 2);
    table.insert(5, 3);
    assert_eq!(table.get(5), Some(3));
    assert_eq!(table.get(6), Some(2));
    assert!(table.contains_key(6));
    table.remove(6);
    assert!(!table.contains_key(6));
    assert_eq!(table.get(5), Some(3));
    table.remove(7);
    table.remove(5);
    assert!(table.is_empty());
}
