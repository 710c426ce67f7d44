use meteoroids::{format_label, parse_label, EntityId, Kind};

fn label_id(kind: Kind, index: u64) -> EntityId {
    EntityId { kind, index }
}

#[test]
fn labels_are_prefix_and_number() {
    assert_eq!(format_label(label_id(Kind::Player, 0)), b"player".to_vec());
    assert_eq!(format_label(label_id(Kind::Shot, 3)), b"shot3".to_vec());
    assert_eq!(format_label(label_id(Kind::Meteoroid, 0)), b"meteoroid0".to_vec());
    assert_eq!(format_label(label_id(Kind::Shot, 1207)), b"shot1207".to_vec());
}

#[test]
fn labels_read_back() {
    assert_eq!(parse_label(b"player"), Some(label_id(Kind::Player, 0)));
    assert_eq!(parse_label(b"meteoroid7"), Some(label_id(Kind::Meteoroid, 7)));
    assert_eq!(parse_label(b"shot3"), Some(label_id(Kind::Shot, 3)));
    assert_eq!(parse_label(b"shot18446744073709551615"), Some(label_id(Kind::Shot, u64::MAX)));
    for k in [Kind::Shot, Kind::Meteoroid] {
        for n in [0u64, 9, 10, 99, 100, 4321] {
            assert_eq!(parse_label(&format_label(label_id(k, n))), Some(label_id(k, n)));
        }
    }
}

#[test]
fn malformed_labels_are_refused() {
    for bad in [
        &b""[..],
        b"shot",
        b"shot03",
        b"shot3x",
        b"shot18446744073709551616",
        b"players",
        b"meteor1",
        b"stop_time",
        b"Shot1",
    ] {
        assert_eq!(parse_label(bad), None);
    }
}
