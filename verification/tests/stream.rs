use efi_hda::error::HdaError;
use efi_hda::stream::{
    fill_bde, init_bdl, loop_step, milliseconds_to_stall, milliseconds_to_timer_period,
    stream_timers, BufferDescriptorListWithBuffers, CopyResult, Descriptor, Loop, LoopStep,
    LoopTimers, Refill, SampleBuffer, BUFFER_COUNT, BUFFER_SIZE,
};

fn ramp(len: usize) -> Vec<i16> {
    (0..len).map(|i| (i % 30000) as i16).collect()
}

#[test]
fn new_list_is_empty_and_silent() {
    let bdl = BufferDescriptorListWithBuffers::new();
    assert_eq!(bdl.descriptors.len(), 8);
    assert_eq!(bdl.buffers.len(), 8);
    for i in 0..8 {
        assert_eq!(bdl.descriptors[i], Descriptor { address: 0, length: 0, control: 0 });
        assert_eq!(bdl.buffers[i].samples, vec![0i16; 2048]);
    }
    assert_eq!(SampleBuffer::new().samples.len(), BUFFER_SIZE);
}

#[test]
fn init_bdl_points_descriptors_at_buffers() {
    let mut bdl = BufferDescriptorListWithBuffers::new();
    bdl.descriptors[3].length = 4096;
    assert_eq!(init_bdl(0x0010_0000, &mut bdl), Ok(()));
    for i in 0..BUFFER_COUNT {
        assert_eq!(
            bdl.descriptors[i],
            Descriptor { address: 0x0010_0000 + 128 + 4096 * i as u64, length: 0, control: 0 }
        );
    }
    assert_eq!(bdl.descriptors[0].address, 0x0010_0080);
    assert_eq!(bdl.descriptors[7].address, 0x0010_7080);
}

#[test]
fn init_bdl_refuses_a_list_beyond_the_address_space() {
    let mut bdl = BufferDescriptorListWithBuffers::new();
    bdl.descriptors[0].address = 77;
    assert_eq!(init_bdl(u64::MAX - 32895, &mut bdl), Err(HdaError::InvalidParameter));
    assert_eq!(bdl.descriptors[0].address, 77);
    assert_eq!(init_bdl(u64::MAX - 32896, &mut bdl), Ok(()));
    assert_eq!(bdl.descriptors[7].address, u64::MAX - 32896 + 128 + 7 * 4096);
}

#[test]
fn fill_bde_wraps_the_source() {
    let mut buffer = SampleBuffer::new();
    let mut descriptor = Descriptor { address: 0x1000, length: 0, control: 1 };
    let samples = [10i16, 20, 30];
    let result = fill_bde(&mut buffer, &mut descriptor, 1, &samples);
    assert_eq!(result, CopyResult { loop_buffers: 1, loop_samples: 2048 });
    assert_eq!(descriptor, Descriptor { address: 0x1000, length: 4096, control: 0 });
    for (j, &sample) in buffer.samples.iter().enumerate() {
        assert_eq!(sample, samples[(1 + j) % 3]);
    }
    assert_eq!(&buffer.samples[..4], &[20, 30, 10, 20]);
}

#[test]
fn fill_bde_from_a_long_source() {
    let mut buffer = SampleBuffer::new();
    let mut descriptor = Descriptor { address: 0, length: 0, control: 0 };
    let samples = ramp(5000);
    fill_bde(&mut buffer, &mut descriptor, 4000, &samples);
    assert_eq!(buffer.samples[0], 4000);
    assert_eq!(buffer.samples[999], 4999);
    assert_eq!(buffer.samples[1000], 0);
    assert_eq!(buffer.samples[2047], 1047);
}

#[test]
fn transfer_moves_whole_buffers() {
    let samples = ramp(3000);
    let mut bdl = BufferDescriptorListWithBuffers::new();
    let mut control = Loop::new();
    assert_eq!(control.transfer(&mut bdl, &samples, 16384), 16384);
    assert_eq!(control.position(), 16384 % 3000);
    assert_eq!(control.buffer(), 0);
    for k in 0..8 {
        assert_eq!(bdl.descriptors[k].length, 4096);
        for j in [0usize, 1, 951, 952, 2047] {
            assert_eq!(bdl.buffers[k].samples[j], samples[(k * 2048 + j) % 3000]);
        }
    }
    // a count that is no whole number of buffers is rounded down
    assert_eq!(control.transfer(&mut bdl, &samples, 2048 + 100), 2048);
    assert_eq!(control.position(), (16384 + 2048) % 3000);
    assert_eq!(control.buffer(), 1);
    assert_eq!(bdl.buffers[0].samples[0], samples[16384 % 3000]);
    assert_eq!(bdl.buffers[1].samples[0], samples[2048]);
    assert_eq!(control.transfer(&mut bdl, &samples, 2047), 0);
    assert_eq!(control.transfer(&mut bdl, &samples, 0), 0);
    assert_eq!(control.position(), 432);
    assert_eq!(control.buffer(), 1);
}

#[test]
fn transfer_total_is_a_multiple_of_the_buffer_size() {
    for len in [1usize, 7, 2048, 2049, 4096, 10001] {
        let samples = ramp(len);
        let mut bdl = BufferDescriptorListWithBuffers::new();
        let mut control = Loop::new();
        let mut total = 0usize;
        for count in [16384usize, 2048, 5000, 100, 4096, 6143, 20480] {
            let moved = control.transfer(&mut bdl, &samples, count);
            assert_eq!(moved % BUFFER_SIZE, 0);
            assert_eq!(moved, count - count % BUFFER_SIZE);
            total += moved;
            assert_eq!(control.position(), total % len);
            assert_eq!(control.buffer(), (total / BUFFER_SIZE) % BUFFER_COUNT);
        }
        assert_eq!(total, 16384 + 2048 + 4096 + 4096 + 4096 + 20480);
    }
}

#[test]
fn transfer_overwrites_round_the_ring() {
    let samples = ramp(2048 * 3);
    let mut bdl = BufferDescriptorListWithBuffers::new();
    let mut control = Loop::new();
    // ten fills: fills 8 and 9 overwrite buffers 0 and 1
    assert_eq!(control.transfer(&mut bdl, &samples, 2048 * 10), 2048 * 10);
    assert_eq!(bdl.buffers[0].samples[0], samples[(8 * 2048) % 6144]);
    assert_eq!(bdl.buffers[1].samples[0], samples[(9 * 2048) % 6144]);
    assert_eq!(bdl.buffers[2].samples[0], samples[(2 * 2048) % 6144]);
    assert_eq!(control.buffer(), 2);
    assert_eq!(control.position(), 2048);
}

#[test]
fn refill_counts_room_from_the_link_position() {
    let samples = ramp(3000);
    let mut bdl = BufferDescriptorListWithBuffers::new();
    let mut control = Loop::new();
    control.transfer(&mut bdl, &samples, 16384);
    let mut refill = Refill::new(0).unwrap();
    assert_eq!(refill.room(0), 0);
    assert_eq!(refill.room(4096), 2048);
    // less than a buffer of room: nothing moves
    assert_eq!(refill.tick(4094, &mut control, &mut bdl, &samples), Ok(0));
    assert_eq!(control.buffer(), 0);
    assert_eq!(refill.room(4096), 2048);
    // one buffer
    assert_eq!(refill.tick(4096, &mut control, &mut bdl, &samples), Ok(2048));
    assert_eq!(control.buffer(), 1);
    assert_eq!(refill.room(4096), 0);
    // one buffer and 52 samples left over
    assert_eq!(refill.tick(4096 + 4200, &mut control, &mut bdl, &samples), Ok(2048));
    assert_eq!(refill.room(8296), 52);
    assert_eq!(control.buffer(), 2);
    // the position has gone round the end of the cyclic buffer
    assert_eq!(refill.room(100), 52 + 16384 + 50 - 4148);
    assert_eq!(refill.tick(100, &mut control, &mut bdl, &samples), Ok(12288));
    assert_eq!(refill.room(100), 50);
    assert_eq!(control.buffer(), 0);
    assert_eq!(control.position(), (16384 + 2048 + 2048 + 12288) % 3000);
}

#[test]
fn refill_refuses_positions_outside_the_buffer() {
    let samples = ramp(100);
    let mut bdl = BufferDescriptorListWithBuffers::new();
    let mut control = Loop::new();
    assert_eq!(Refill::new(32768), Err(HdaError::DeviceError));
    assert_eq!(Refill::new(u32::MAX), Err(HdaError::DeviceError));
    let mut refill = Refill::new(32767).unwrap();
    assert_eq!(
        refill.tick(32768, &mut control, &mut bdl, &samples),
        Err(HdaError::DeviceError)
    );
    assert_eq!(control.buffer(), 0);
    assert_eq!(refill, Refill::new(32767).unwrap());
    assert_eq!(refill.tick(32767, &mut control, &mut bdl, &samples), Ok(0));
}

#[test]
fn deadline_is_looked_at_first() {
    assert_eq!(loop_step(true, true), LoopStep::Stop);
    assert_eq!(loop_step(true, false), LoopStep::Stop);
    assert_eq!(loop_step(false, true), LoopStep::Refill);
    assert_eq!(loop_step(false, false), LoopStep::Wait);
}

#[test]
fn timer_periods() {
    assert_eq!(milliseconds_to_timer_period(0), 0);
    assert_eq!(milliseconds_to_timer_period(100), 1_000_000);
    assert_eq!(milliseconds_to_timer_period(u64::MAX / 10000), (u64::MAX / 10000) * 10000);
    assert_eq!(milliseconds_to_timer_period(u64::MAX / 10000 + 1), u64::MAX);
    assert_eq!(milliseconds_to_timer_period(u64::MAX), u64::MAX);
    assert_eq!(milliseconds_to_stall(5), 5000);
    assert_eq!(milliseconds_to_stall(usize::MAX), usize::MAX);
}

#[test]
fn stream_timer_periods() {
    // the cyclic buffer holds 16384 samples: 185 ms of stereo at 44100 samples a second
    assert_eq!(
        stream_timers(2, 44100, 1000),
        Ok(LoopTimers { deadline: 10_000_000, tick: 1_850_000 })
    );
    assert_eq!(
        stream_timers(2, 22050, 0),
        Ok(LoopTimers { deadline: 0, tick: 3_710_000 })
    );
    assert_eq!(
        stream_timers(1, 1, u64::MAX),
        Ok(LoopTimers { deadline: u64::MAX, tick: 163_840_000_000 })
    );
    assert_eq!(stream_timers(0, 44100, 1000), Err(HdaError::InvalidParameter));
    assert_eq!(stream_timers(2, 0, 1000), Err(HdaError::InvalidParameter));
}
