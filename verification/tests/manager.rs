//! Capture manager and frame channel behavior.

use lamco_wayland::config::PipeWireConfig;
use lamco_wayland::error::PipeWireError;
use lamco_wayland::format::PixelFormat;
use lamco_wayland::frame::{FrameChannel, PushOutcome, VideoFrame};
use lamco_wayland::manager::{ManagerState, PipeWireManager, StreamHandle};
use lamco_wayland::session::{SourceType, StreamInfo};

fn frame(seq: u64, ts: u64) -> VideoFrame {
    VideoFrame {
        width: 4,
        height: 4,
        stride: 16,
        format: PixelFormat::BGRA,
        data: vec![0u8; 64],
        timestamp_ms: ts,
        sequence: seq,
        damage: None,
    }
}

fn monitor_info(node_id: u32) -> StreamInfo {
    StreamInfo {
        node_id,
        position: (0, 0),
        size: (1920, 1080),
        source_type: SourceType::Monitor,
    }
}

#[test]
fn test_stream_handle() {
    let handle = StreamHandle {
        id: 1,
        node_id: 42,
        position: (0, 0),
        size: (1920, 1080),
        source_type: SourceType::Monitor,
    };

    assert_eq!(handle.id, 1);
    assert_eq!(handle.node_id, 42);
    assert_eq!(handle.size, (1920, 1080));
}

#[test]
fn test_manager_creation() {
    let manager = PipeWireManager::with_default();
    assert!(manager.is_ok());
}

#[test]
fn test_manager_with_config() {
    let config = PipeWireConfig::builder().buffer_count(5).max_streams(4).build();

    let manager = PipeWireManager::new(config);
    assert!(manager.is_ok());

    let mgr = manager.expect("manager should be created");
    assert_eq!(mgr.config().buffer_count, 5);
    assert_eq!(mgr.config().max_streams, 4);
}

#[test]
fn test_invalid_config() {
    let config = PipeWireConfig {
        buffer_count: 0,
        ..Default::default()
    };

    let manager = PipeWireManager::new(config);
    assert!(manager.is_err());
}

#[test]
fn test_manager_state() {
    let manager = PipeWireManager::with_default().expect("manager");
    assert_eq!(manager.state(), ManagerState::Disconnected);
    assert!(!manager.is_connected());
}

#[test]
fn test_connect_while_connected() {
    // Connecting a second time fails with the lifecycle error.
    let mut manager = PipeWireManager::with_default().expect("manager");
    assert!(manager.connect(5).is_ok());
    assert!(manager.is_connected());
    let again = manager.connect(6);
    assert!(matches!(again, Err(PipeWireError::InvalidState(_))));
}

#[test]
fn test_create_stream_requires_connection() {
    let mut manager = PipeWireManager::with_default().expect("manager");
    let denied = manager.create_stream(&monitor_info(42));
    assert!(matches!(denied, Err(PipeWireError::InvalidState(_))));
}

#[test]
fn test_too_many_streams() {
    // At exactly the stream limit, creation fails and carries the limit.
    let config = PipeWireConfig::builder().max_streams(2).build();
    let mut manager = PipeWireManager::new(config).expect("manager");
    manager.connect(5).expect("connect");
    manager.create_stream(&monitor_info(1)).expect("first stream");
    manager.create_stream(&monitor_info(2)).expect("second stream");
    let denied = manager.create_stream(&monitor_info(3));
    assert!(matches!(denied, Err(PipeWireError::TooManyStreams(2))));
}

#[test]
fn test_remove_unknown_stream() {
    let mut manager = PipeWireManager::with_default().expect("manager");
    manager.connect(5).expect("connect");
    let denied = manager.remove_stream(7);
    assert!(matches!(denied, Err(PipeWireError::StreamNotFound(7))));
}

#[test]
fn test_stream_lifecycle() {
    let mut manager = PipeWireManager::with_default().expect("manager");
    manager.connect(5).expect("connect");
    let handle = manager.create_stream(&monitor_info(42)).expect("stream");
    assert_eq!(handle.id, 0);
    assert_eq!(handle.size, (1920, 1080));
    assert!(manager.stream(handle.id).is_some());
    assert_eq!(manager.streams().len(), 1);

    manager.remove_stream(handle.id).expect("remove");
    assert!(manager.stream(handle.id).is_none());

    manager.shutdown().expect("shutdown");
    assert_eq!(manager.state(), ManagerState::Disconnected);
    // Shutting down again is harmless.
    manager.shutdown().expect("shutdown again");
}

#[test]
fn test_frame_channel_overflow() {
    // A three-frame channel offered ten frames drops the seven newest and
    // retains the three it buffered first, in order: the newest frame is
    // the one dropped, and the counter advances once per drop.
    let mut channel = FrameChannel::new(3);
    for seq in 1..=10u64 {
        let outcome = channel.push(frame(seq, seq * 10));
        if seq <= 3 {
            assert_eq!(outcome, PushOutcome::Queued);
        } else {
            assert_eq!(outcome, PushOutcome::DroppedNewest);
        }
    }
    assert_eq!(channel.dropped(), 7);
    assert_eq!(channel.recv().map(|f| f.sequence), Some(1));
    assert_eq!(channel.recv().map(|f| f.sequence), Some(2));
    assert_eq!(channel.recv().map(|f| f.sequence), Some(3));
    assert!(channel.recv().is_none());

    // Draining made room again: the next in-order frame is queued.
    assert_eq!(channel.push(frame(11, 110)), PushOutcome::Queued);
}

#[test]
fn test_frame_channel_rejects_out_of_order() {
    // A frame that does not advance the sequence is rejected, so delivery
    // stays in capture order.
    let mut channel = FrameChannel::new(4);
    assert_eq!(channel.push(frame(5, 100)), PushOutcome::Queued);
    assert_eq!(channel.push(frame(5, 200)), PushOutcome::RejectedOutOfOrder);
    assert_eq!(channel.push(frame(4, 300)), PushOutcome::RejectedOutOfOrder);
    assert_eq!(channel.push(frame(6, 50)), PushOutcome::RejectedOutOfOrder);
    assert_eq!(channel.push(frame(6, 100)), PushOutcome::Queued);

    let first = channel.recv().expect("first");
    let second = channel.recv().expect("second");
    assert!(second.sequence > first.sequence);
    assert!(second.timestamp_ms >= first.timestamp_ms);
}

#[test]
fn test_manager_frame_flow() {
    let config = PipeWireConfig::builder().frame_buffer_size(3).build();
    let mut manager = PipeWireManager::new(config).expect("manager");
    manager.connect(5).expect("connect");
    let handle = manager.create_stream(&monitor_info(42)).expect("stream");

    for seq in 1..=10u64 {
        manager.push_frame(handle.id, frame(seq, seq * 10)).expect("push");
    }
    // The channel buffered the first three; the newest offers were dropped.
    let got = manager.recv_frame(handle.id).expect("recv").expect("frame");
    assert_eq!(got.sequence, 1);

    // Attaching a fresh receiver discards frames in flight.
    assert!(manager.frame_receiver(handle.id));
    assert!(manager.recv_frame(handle.id).expect("recv").is_none());
}

#[test]
fn test_reconnect_backoff() {
    assert_eq!(PipeWireManager::reconnect_delay_ms(0), 100);
    assert_eq!(PipeWireManager::reconnect_delay_ms(1), 200);
    assert_eq!(PipeWireManager::reconnect_delay_ms(2), 400);
    assert!(PipeWireManager::reconnect_delay_ms(30) <= 60000);
}

#[test]
fn test_queued_len() {
    // The per-stream queue fill is reported exactly; an unknown stream
    // reports nothing.
    let mut manager = PipeWireManager::with_default().expect("manager");
    manager.connect(5).expect("connect");
    let handle = manager.create_stream(&monitor_info(42)).expect("stream");
    assert_eq!(manager.queued_len(handle.id), Some(0));
    manager.push_frame(handle.id, frame(1, 10)).expect("push");
    manager.push_frame(handle.id, frame(2, 20)).expect("push");
    assert_eq!(manager.queued_len(handle.id), Some(2));
    manager.recv_frame(handle.id).expect("recv");
    assert_eq!(manager.queued_len(handle.id), Some(1));
    assert_eq!(manager.queued_len(99), None);
}
