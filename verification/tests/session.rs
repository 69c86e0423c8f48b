//! Stream descriptor behavior.

use lamco_wayland::session::{SourceType, StreamInfo};

#[test]
fn test_stream_info_creation() {
    let stream = StreamInfo {
        node_id: 42,
        position: (0, 0),
        size: (1920, 1080),
        source_type: SourceType::Monitor,
    };

    assert_eq!(stream.node_id, 42);
    assert_eq!(stream.position, (0, 0));
    assert_eq!(stream.size, (1920, 1080));
    assert!(matches!(stream.source_type, SourceType::Monitor));
}

#[test]
fn test_source_type_variants() {
    assert!(matches!(SourceType::Monitor, SourceType::Monitor));
    assert!(matches!(SourceType::Window, SourceType::Window));
    assert!(matches!(SourceType::Virtual, SourceType::Virtual));
}
