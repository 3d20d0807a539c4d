//! Buffers, samples and the two streaming loops.

use irig_asio::buffer_manager::{BufferManager, ChannelBuffer, DoubleBuffer};
use irig_asio::constants::ERROR_IO_PENDING;
use irig_asio::ks_device::DevicePath;
use irig_asio::ks_engine::{
    ks_io_loop, pack_period, period_bytes, set_pin_state, unpack_period, KsAction, KsAudioStream,
    KsEvent, KsLoop, KsPhase,
};
use irig_asio::ks_pin::PinDirection;
use irig_asio::ks_property::{PropertySet, KSSTATE_RUN, KSSTATE_STOP};
use irig_asio::ks_stream::{store_capture, Consumed, Depth, KsCaptureState, KsRenderState};
use irig_asio::pcm::{pack_mono, pack_stereo, read_samples, SampleKind, StreamFormat};
use irig_asio::wasapi_backend::{
    choose_route, direct_path, packet_len, read_packet, render_frames, wasapi_io_loop, LoopAction, LoopEvent,
    LoopPhase, Route, WasapiLoop, WasapiStream, MAX_FAILURES,
};

#[test]
fn buffers_start_silent() {
    assert_eq!(ChannelBuffer::new(3).as_ptr(), &vec![0, 0, 0]);
    let mut pair = DoubleBuffer::new(2);
    pair.ptr(0)[1] = 5;
    pair.ptr(1)[0] = 7;
    assert_eq!(pair.half(0), &vec![0, 5]);
    assert_eq!(pair.half(1), &vec![7, 0]);
    pair.ptr(9)[0] = 8;
    assert_eq!(pair.half(1), &vec![8, 0]);
    let mut half = ChannelBuffer::new(1);
    half.as_mut_ptr()[0] = -1;
    assert_eq!(half.as_ptr(), &vec![-1]);
}

#[test]
fn the_manager_swaps_its_halves() {
    let mut m = BufferManager::new(64);
    assert_eq!(m.frames, 64);
    assert_eq!((m.input_buffers.len(), m.output_buffers.len()), (2, 2));
    assert_eq!(m.current_index(), 0);
    assert_eq!(m.swap_index(), 1);
    assert_eq!(m.current_index(), 1);
    assert_eq!(m.swap_index(), 0);
    assert!(!m.is_running());
    m.set_running(true);
    assert!(m.is_running());
    assert_eq!(m.running, 1);
    m.set_running(false);
    assert!(!m.is_running());
}

#[test]
fn captured_words_go_over_the_beginning_of_a_half() {
    let mut m = BufferManager::new(4);
    m.input_ptr(0, 1).copy_from_slice(&[9, 9, 9, 9]);
    m.output_ptr(1, 0)[2] = 4;
    m.store_input(1, &vec![1, 2], &vec![3, 4]);
    assert_eq!(m.input_buffers[0].half(1), &vec![1, 2, 9, 9]);
    assert_eq!(m.input_buffers[1].half(1), &vec![3, 4, 0, 0]);
    assert_eq!(m.input_buffers[0].half(0), &vec![0, 0, 0, 0]);
    assert_eq!(m.output_buffers[1].half(0), &vec![0, 0, 4, 0]);
    store_capture(&mut m, 1, &vec![5]);
    assert_eq!(m.input_buffers[0].half(1), &vec![5, 0, 0, 0]);
    assert_eq!(m.input_buffers[1].half(1), &vec![5, 0, 0, 0]);
}

#[test]
fn formats_of_a_mix() {
    assert_eq!(StreamFormat::unknown(), StreamFormat { bits: 32, channels: 2, is_float: false });
    assert!(StreamFormat::of_mix(32, 2, 1).is_float);
    assert!(StreamFormat::of_mix(16, 2, 3).is_float);
    assert!(StreamFormat::of_mix(24, 2, 0xFFFE).is_float);
    assert!(!StreamFormat::of_mix(16, 2, 1).is_float);
    assert_eq!(StreamFormat::of_mix(16, 2, 1).kind(), SampleKind::Int16);
    assert_eq!(StreamFormat::of_mix(24, 2, 1).kind(), SampleKind::Int32);
    assert_eq!(StreamFormat::of_mix(32, 2, 1).kind(), SampleKind::Float32);
    assert_eq!(StreamFormat::of_mix(16, 2, 1).silence_bytes(64), 256);
    assert_eq!(StreamFormat::of_mix(24, 6, 1).silence_bytes(10), 180);
    assert_eq!(StreamFormat::of_mix(16, 2, 3).silence_bytes(10), 80);
}

#[test]
fn samples_there_and_back() {
    let left = vec![1, -2, 32767];
    let right = vec![-32768, 0, 5];
    let bytes = pack_stereo(SampleKind::Int16, &left, &right);
    assert_eq!(bytes, vec![1, 0, 0, 0x80, 0xFE, 0xFF, 0, 0, 0xFF, 0x7F, 5, 0]);
    assert_eq!(read_samples(SampleKind::Int16, &bytes, 2, 0, 3), left);
    assert_eq!(read_samples(SampleKind::Int16, &bytes, 2, 1, 3), right);
    let wide = vec![i32::MIN, -1, 7];
    let bytes = pack_mono(SampleKind::Int32, &wide);
    assert_eq!(bytes.len(), 12);
    assert_eq!(read_samples(SampleKind::Int32, &bytes, 1, 0, 3), wide);
    let float = pack_mono(SampleKind::Float32, &vec![0.5f32.to_bits() as i32]);
    assert_eq!(float, 0.5f32.to_le_bytes().to_vec());
}

#[test]
fn packets_are_read() {
    let mono = StreamFormat { bits: 16, channels: 1, is_float: false };
    assert_eq!(packet_len(&mono, 3, 2), 4);
    let p = read_packet(&mono, false, 3, &vec![1, 0, 2, 0, 3, 0], 2);
    assert_eq!(p.kind, Some(SampleKind::Int16));
    assert_eq!((p.left, p.right), (vec![1, 2], vec![1, 2]));
    let stereo = StreamFormat { bits: 16, channels: 2, is_float: false };
    let p = read_packet(&stereo, false, 1, &vec![1, 0, 2, 0], 64);
    assert_eq!((p.left, p.right), (vec![1], vec![2]));
    // A packet with more channels is read as pairs, too.
    let quad = StreamFormat { bits: 32, channels: 4, is_float: true };
    let bytes = pack_mono(SampleKind::Int32, &vec![1, 2, 3, 4]);
    assert_eq!(packet_len(&quad, 2, 64), 16);
    let p = read_packet(&quad, false, 2, &bytes, 64);
    assert_eq!(p.kind, Some(SampleKind::Float32));
    assert_eq!((p.left, p.right), (vec![1, 3], vec![2, 4]));
    let p = read_packet(&stereo, true, 3, &Vec::new(), 2);
    assert_eq!(p.kind, None);
    assert_eq!((p.left, p.right), (vec![0, 0], vec![0, 0]));
}

#[test]
fn room_in_the_engine() {
    assert_eq!(render_frames(Some(1000), Some(900), 256), 100);
    assert_eq!(render_frames(Some(1000), None, 256), 256);
    assert_eq!(render_frames(None, None, 256), 256);
    assert_eq!(render_frames(None, Some(200), 256), 56);
    assert_eq!(render_frames(Some(10), Some(11), 256), 0);
}

#[test]
fn routes_and_paths() {
    assert_eq!(choose_route(true, true), Route::Service);
    assert_eq!(choose_route(false, true), Route::Pin);
    assert_eq!(choose_route(false, false), Route::Nowhere);
    let path = |unit| Some(DevicePath { wide: vec![unit] });
    assert_eq!(direct_path(path(1), path(2)).map(|p| p.wide), Some(vec![1]));
    assert_eq!(direct_path(None, path(2)).map(|p| p.wide), Some(vec![2]));
    assert!(direct_path(None, None).is_none());
}

#[test]
fn a_stream_counts_its_frames() {
    let mut s = WasapiStream::start();
    assert!(s.running);
    assert_eq!(s.get_sample_position(), 0);
    s.advance(256);
    s.advance(64);
    assert_eq!(s.get_sample_position(), 320);
    s.stop();
    assert!(!s.running);
    let mut s = WasapiStream { running: true, sample_count: u64::MAX };
    s.advance(2);
    assert_eq!(s.get_sample_position(), 1);
    let mut k = KsAudioStream::start();
    k.advance(128);
    assert_eq!(k.get_sample_position(), 128);
    k.stop();
    assert_eq!(k, KsAudioStream { running: false, sample_count: 128 });
}

struct Engine {
    state: WasapiLoop,
    buffers: BufferManager,
    stream: WasapiStream,
}

impl Engine {
    fn new(capture: Route, render: Route) -> Self {
        Engine {
            state: WasapiLoop::new(capture, render),
            buffers: BufferManager::new(256),
            stream: WasapiStream::start(),
        }
    }

    fn step(&mut self, event: LoopEvent) -> LoopAction {
        wasapi_io_loop(&mut self.state, &mut self.buffers, &mut self.stream, event)
    }
}

#[test]
fn a_round_through_the_engine() {
    let mut e = Engine::new(Route::Service, Route::Service);
    assert_eq!(e.step(LoopEvent::Begin), LoopAction::AskRunning);
    assert!(e.buffers.is_running());
    for round in 1..=3u64 {
        assert_eq!(e.step(LoopEvent::Running(true)), LoopAction::Wait(Route::Service));
        assert_eq!(e.step(LoopEvent::Waited(true)), LoopAction::AskRunning);
        let filled = (round % 2) as i32;
        assert_eq!(e.step(LoopEvent::Running(true)), LoopAction::AskPacketSize);
        assert_eq!(e.step(LoopEvent::PacketSize(Some(480))), LoopAction::FetchPacket);
        assert_eq!(e.step(LoopEvent::Packet(Some(480))), LoopAction::StorePacket(filled));
        assert_eq!(e.step(LoopEvent::Stored), LoopAction::AskPacketSize);
        assert_eq!(e.step(LoopEvent::PacketSize(Some(480))), LoopAction::FetchPacket);
        assert_eq!(e.step(LoopEvent::Packet(None)), LoopAction::AskPacketSize);
        assert_eq!(e.step(LoopEvent::PacketSize(Some(0))), LoopAction::AskRoom);
        assert_eq!(
            e.step(LoopEvent::Room(Some(512), Some(400))),
            LoopAction::RenderService(1 - filled, 112)
        );
        assert_eq!(e.stream.sample_count, 256 * (round - 1));
        assert_eq!(e.step(LoopEvent::Rendered), LoopAction::Notify(filled));
        assert!(e.buffers.is_running());
        assert_eq!(e.stream.sample_count, 256 * round);
        assert_eq!(e.step(LoopEvent::Notified), LoopAction::AskRunning);
    }
    assert_eq!(e.step(LoopEvent::Running(false)), LoopAction::Finish);
    assert_eq!(e.state.phase, LoopPhase::Ended);
    assert!(!e.buffers.is_running());
}

#[test]
fn a_full_engine_is_not_rendered_to() {
    let mut e = Engine::new(Route::Nowhere, Route::Service);
    e.step(LoopEvent::Begin);
    e.step(LoopEvent::Running(true));
    e.step(LoopEvent::Waited(true));
    assert_eq!(e.step(LoopEvent::Running(true)), LoopAction::AskRoom);
    assert_eq!(e.step(LoopEvent::Room(Some(512), Some(512))), LoopAction::Notify(1));
    assert_eq!(e.stream.sample_count, 256);
}

#[test]
fn a_round_through_the_pins() {
    let mut e = Engine::new(Route::Pin, Route::Pin);
    e.step(LoopEvent::Begin);
    assert_eq!(e.step(LoopEvent::Running(true)), LoopAction::Wait(Route::Pin));
    assert_eq!(e.step(LoopEvent::Waited(false)), LoopAction::AskRunning);
    assert_eq!(e.step(LoopEvent::Running(true)), LoopAction::Sleep);
    assert_eq!(e.step(LoopEvent::Slept), LoopAction::AskRunning);
    assert_eq!(e.step(LoopEvent::Running(true)), LoopAction::ConsumePin(1));
    assert_eq!(e.step(LoopEvent::Stored), LoopAction::RenderPin(0));
    assert_eq!(e.step(LoopEvent::Rendered), LoopAction::Notify(1));
}

#[test]
fn a_stop_during_the_wait_ends_the_loop() {
    let mut e = Engine::new(Route::Nowhere, Route::Nowhere);
    e.step(LoopEvent::Begin);
    e.step(LoopEvent::Running(true));
    e.step(LoopEvent::Waited(false));
    assert_eq!(e.step(LoopEvent::Running(false)), LoopAction::AskRunning);
    assert_eq!(e.step(LoopEvent::Running(false)), LoopAction::Finish);
    assert_eq!(e.buffers.current_index(), 0);
    assert_eq!(e.stream.sample_count, 0);
}

#[test]
fn the_host_is_called_without_devices() {
    let mut e = Engine::new(Route::Nowhere, Route::Nowhere);
    e.step(LoopEvent::Begin);
    assert_eq!(e.step(LoopEvent::Running(true)), LoopAction::Wait(Route::Service));
    e.step(LoopEvent::Waited(true));
    assert_eq!(e.step(LoopEvent::Running(true)), LoopAction::Notify(1));
    assert_eq!(e.buffers.input_buffers[0].half(1), &vec![0; 256]);
}

#[test]
fn without_a_capture_source_the_host_gets_silence() {
    for render in [Route::Nowhere, Route::Pin] {
        let mut e = Engine::new(Route::Nowhere, render);
        for channel in 0..2 {
            for half in 0..2 {
                e.buffers.input_ptr(channel, half).copy_from_slice(&[7; 256]);
                e.buffers.output_ptr(channel, half).copy_from_slice(&[8; 256]);
            }
        }
        e.step(LoopEvent::Begin);
        for index in [1, 0, 1] {
            assert_eq!(e.step(LoopEvent::Running(true)), LoopAction::Wait(Route::Service));
            e.step(LoopEvent::Waited(true));
            let mut action = e.step(LoopEvent::Running(true));
            if render == Route::Pin {
                assert_eq!(action, LoopAction::RenderPin(1 - index));
                action = e.step(LoopEvent::Rendered);
            }
            assert_eq!(action, LoopAction::Notify(index));
            for channel in 0..2 {
                assert_eq!(e.buffers.input_buffers[channel].half(index), &vec![0; 256]);
                assert_eq!(e.buffers.output_buffers[channel].half(index), &vec![8; 256]);
            }
            // Whatever the host leaves there is gone the next time.
            e.buffers.input_ptr(0, index).copy_from_slice(&[9; 256]);
            e.step(LoopEvent::Notified);
        }
    }
}

#[test]
fn one_half_of_the_input_is_silenced() {
    let mut m = BufferManager::new(3);
    m.store_input(0, &vec![1, 2, 3], &vec![4, 5, 6]);
    m.store_input(1, &vec![1, 2, 3], &vec![4, 5, 6]);
    m.silence_input(1);
    assert_eq!(m.input_buffers[0].half(1), &vec![0, 0, 0]);
    assert_eq!(m.input_buffers[1].half(1), &vec![0, 0, 0]);
    assert_eq!(m.input_buffers[0].half(0), &vec![1, 2, 3]);
    assert_eq!(m.input_buffers[1].half(0), &vec![4, 5, 6]);
}

#[test]
fn a_lost_device_leads_to_a_reset() {
    let mut e = Engine::new(Route::Service, Route::Service);
    e.step(LoopEvent::Begin);
    e.step(LoopEvent::Running(true));
    e.step(LoopEvent::Waited(true));
    e.step(LoopEvent::Running(true));
    e.state.consecutive_failures = MAX_FAILURES + 1;
    assert_eq!(e.step(LoopEvent::PacketSize(None)), LoopAction::RequestReset);
    assert_eq!(e.state.phase, LoopPhase::Ended);
    assert!(!e.buffers.is_running());
    let mut e = Engine::new(Route::Service, Route::Pin);
    e.state.consecutive_failures = MAX_FAILURES;
    e.state.phase = LoopPhase::Polling;
    assert_eq!(e.step(LoopEvent::PacketSize(None)), LoopAction::RenderPin(1));
    // A packet with data ends the row of failures.
    e.state.phase = LoopPhase::Fetching;
    e.step(LoopEvent::Packet(Some(1)));
    assert_eq!(e.state.consecutive_failures, 0);
}

#[test]
fn a_capture_pin_delivers_16_24_and_32_bits() {
    let mut s = KsCaptureState::try_open(3, 4);
    assert_eq!(s.buf.len(), 12);
    assert!(!s.pending);
    assert_eq!(KsCaptureState::try_open(0, 4).buf.len(), 8);
    assert_eq!(s.frame_extent(), 12);
    assert!(matches!(s.try_consume(4, true, 12), Consumed::Idle));
    s.submit_read(&Ok(()));
    assert!(s.pending);
    s.buf.copy_from_slice(&[1, 0, 0, 0xFF, 0xFF, 0xFF, 0, 0, 0x80, 0xFF, 0xFF, 0x7F]);
    match s.try_consume(4, true, 12) {
        Consumed::Data(block) => {
            assert_eq!(block.depth, Depth::Bits24);
            assert_eq!(block.samples, vec![1, -1, -0x80_0000, 0x7F_FFFF]);
        }
        _ => panic!("no data"),
    }
    assert!(!s.pending);

    s.submit_read(&Err(0x800703E5u32 as i32));
    match s.try_consume(4, true, 6) {
        Consumed::Data(block) => {
            assert_eq!(block.depth, Depth::Bits16);
            assert_eq!(block.samples, vec![1, -256, -1]);
        }
        _ => panic!("no data"),
    }
    s.submit_read(&Err(-5));
    assert!(!s.pending);

    let mut s = KsCaptureState { buf: vec![0xFF; 16], pending: true };
    s.buf[3] = 0x7F;
    match s.try_consume(4, true, 16) {
        Consumed::Data(block) => {
            assert_eq!(block.depth, Depth::Bits32);
            assert_eq!(block.samples, vec![0x7FFF_FFFF, -1, -1, -1]);
        }
        _ => panic!("no data"),
    }
    let mut s = KsCaptureState { buf: vec![0; 8], pending: true };
    assert!(matches!(s.try_consume(4, false, 0), Consumed::Failed));
    assert!(s.pending);
    assert!(matches!(s.try_consume(4, true, 0), Consumed::Empty));
    assert!(!s.pending);
}

#[test]
fn a_render_pin_is_written_in_stereo() {
    let mut s = KsRenderState::try_open(2);
    assert_eq!(s.buf, vec![0; 8]);
    assert!(!s.must_wait());
    assert_eq!(s.write_samples(&vec![1, -1], &vec![2, -32768]), 8);
    assert_eq!(s.buf, vec![1, 0, 2, 0, 0xFF, 0xFF, 0, 0x80]);
    assert!(s.must_wait());
}

#[test]
fn periods_of_direct_streaming() {
    assert_eq!(period_bytes(64), 512);
    let left = vec![i32::MIN, 3];
    let right = vec![-1, i32::MAX];
    let raw = pack_period(&left, &right);
    assert_eq!(raw.len(), period_bytes(2));
    assert_eq!(unpack_period(&raw, 2), (left, right));
    let raw: Vec<u8> = (0..64u8).map(|i| i.wrapping_mul(37) ^ 0x80).collect();
    let (left, right) = unpack_period(&raw, 8);
    assert_eq!(pack_period(&left, &right), raw);
    let (request, state) = set_pin_state(KSSTATE_RUN);
    assert_eq!((request.set, request.id, request.flags), (PropertySet::Connection, 5, 2));
    assert_eq!((request.pin_id, state), (None, 3));
}

#[test]
fn a_session_of_direct_streaming() {
    let mut state = KsLoop::new();
    let mut buffers = BufferManager::new(64);
    let mut stream = KsAudioStream::start();
    let mut step = |e| ks_io_loop(&mut state, &mut buffers, &mut stream, e);
    assert_eq!(step(KsEvent::Begin), KsAction::OpenPin(PinDirection::Render));
    assert_eq!(step(KsEvent::Opened(true)), KsAction::OpenPin(PinDirection::Capture));
    assert_eq!(
        step(KsEvent::Opened(true)),
        KsAction::SetState(PinDirection::Render, KSSTATE_RUN)
    );
    assert_eq!(step(KsEvent::StateSet), KsAction::SetState(PinDirection::Capture, KSSTATE_RUN));
    assert_eq!(step(KsEvent::StateSet), KsAction::MakeEvents);
    assert_eq!(step(KsEvent::EventsMade(true)), KsAction::AskRunning);
    assert_eq!(step(KsEvent::Running(true)), KsAction::SubmitRead);
    assert_eq!(
        step(KsEvent::Submitted(Some(ERROR_IO_PENDING))),
        KsAction::Wait(PinDirection::Capture)
    );
    assert_eq!(step(KsEvent::Waited), KsAction::AskRunning);
    assert_eq!(step(KsEvent::Running(true)), KsAction::Store(1));
    assert_eq!(step(KsEvent::Stored), KsAction::Notify(1));
    assert_eq!(step(KsEvent::Notified), KsAction::SubmitWrite(1));
    assert_eq!(
        step(KsEvent::Submitted(Some(ERROR_IO_PENDING))),
        KsAction::Wait(PinDirection::Render)
    );
    assert_eq!(step(KsEvent::Waited), KsAction::AskRunning);
    assert_eq!(step(KsEvent::Running(true)), KsAction::SubmitRead);
    assert_eq!(step(KsEvent::Submitted(Some(5))), KsAction::AskRunning);
    assert_eq!(step(KsEvent::Running(true)), KsAction::Store(0));
    assert_eq!(step(KsEvent::Stored), KsAction::Notify(0));
    assert_eq!(step(KsEvent::Notified), KsAction::SubmitWrite(0));
    assert_eq!(step(KsEvent::Submitted(None)), KsAction::AskRunning);
    assert_eq!(
        step(KsEvent::Running(false)),
        KsAction::SetState(PinDirection::Render, KSSTATE_STOP)
    );
    assert_eq!(step(KsEvent::StateSet), KsAction::SetState(PinDirection::Capture, KSSTATE_STOP));
    assert_eq!(step(KsEvent::StateSet), KsAction::CloseEvents);
    assert_eq!(step(KsEvent::EventsClosed), KsAction::Finish);
    assert_eq!(stream.sample_count, 128);
    assert_eq!(state.phase, KsPhase::Ended);
    assert!(!buffers.is_running());
}

#[test]
fn a_session_that_cannot_start_fails() {
    let mut buffers = BufferManager::new(64);
    let mut stream = KsAudioStream::start();
    let mut state = KsLoop::new();
    ks_io_loop(&mut state, &mut buffers, &mut stream, KsEvent::Begin);
    let a = ks_io_loop(&mut state, &mut buffers, &mut stream, KsEvent::Opened(false));
    assert_eq!(a, KsAction::Fail);
    assert!(!buffers.is_running());
    buffers.set_running(true);
    let mut state = KsLoop { phase: KsPhase::MakingEvents, index: 0 };
    let a = ks_io_loop(&mut state, &mut buffers, &mut stream, KsEvent::EventsMade(false));
    assert_eq!(a, KsAction::Fail);
    assert!(!buffers.is_running());
}
