use crosswire::props::{classify, classify_class, display_name, NodeProps};
use crosswire::types::NodeType;

fn props(category: Option<&str>, class: Option<&str>) -> NodeProps {
    NodeProps {
        description: None,
        nick: None,
        name: None,
        media_category: category.map(|s| s.to_string()),
        media_class: class.map(|s| s.to_string()),
    }
}

#[test]
fn duplex_category_leaves_sink_unclassified() {
    assert_eq!(classify(&props(Some("Duplex"), Some("Audio/Sink"))), None);
}

#[test]
fn source_class_without_category() {
    assert_eq!(classify(&props(None, Some("Audio/Source"))), Some(NodeType::Source));
}

#[test]
fn sink_class_without_category() {
    assert_eq!(classify(&props(None, Some("Audio/Sink"))), Some(NodeType::Sink));
}

#[test]
fn other_category_defers_to_class() {
    assert_eq!(classify(&props(Some("Playback"), Some("Audio/Sink"))), Some(NodeType::Sink));
}

#[test]
fn no_class_is_unclassified() {
    assert_eq!(classify(&props(None, None)), None);
    assert_eq!(classify(&props(Some("Playback"), None)), None);
    assert_eq!(classify_class("Video/Device"), None);
    assert_eq!(classify_class(""), None);
}

#[test]
fn sink_wins_over_source() {
    assert_eq!(classify_class("Stream/Sink/Source"), Some(NodeType::Sink));
}

#[test]
fn name_falls_back_to_node_name() {
    let mut p = props(None, None);
    p.name = Some("foo".to_string());
    assert_eq!(display_name(&p), "foo");
}

#[test]
fn nick_comes_before_name() {
    let mut p = props(None, None);
    p.nick = Some("bar".to_string());
    p.name = Some("foo".to_string());
    assert_eq!(display_name(&p), "bar");
}

#[test]
fn description_comes_first() {
    let mut p = props(None, None);
    p.description = Some("Speakers".to_string());
    p.nick = Some("bar".to_string());
    p.name = Some("foo".to_string());
    assert_eq!(display_name(&p), "Speakers");
}

#[test]
fn no_name_is_empty() {
    assert_eq!(display_name(&props(None, None)), "");
}
