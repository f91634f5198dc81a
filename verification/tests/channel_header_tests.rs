use oxicord_ui::channel_header::ChannelHeader;

#[test]
fn test_channel_header_creation() {
    let header = ChannelHeader::new()
        .channel_name(Some("general"))
        .online_count(Some(34))
        .topic(Some("General discussion"));

    assert_eq!(header.get_channel_name(), Some("general"));
    assert_eq!(header.get_online_count(), Some(34));
}

#[test]
fn test_channel_header_empty() {
    let header = ChannelHeader::new();
    assert!(header.get_channel_name().is_none());
    assert!(header.get_topic().is_none());
}

#[test]
fn header_layout_full_line() {
    let header = ChannelHeader::new()
        .channel_icon(Some("#"))
        .channel_name(Some("general"))
        .online_count(Some(34))
        .topic(Some("General discussion"));
    assert!(header.can_layout(100));
    let l = header.layout(100, 1).unwrap();
    assert_eq!(l.left_text, "# general");
    assert_eq!(l.left_area_width, 9);
    assert_eq!(l.online.as_deref(), Some("34 ONLINE"));
    assert!(l.separator);
    assert_eq!(l.topic.as_deref(), Some("GENERAL DISCUSSION"));
    assert_eq!(l.right_width, 37);
    assert!(l.show_right);
}

#[test]
fn header_layout_cuts_topic() {
    let header = ChannelHeader::new().channel_name(Some("general")).topic(Some("abcdefghijklmnopqrstuvwxyz"));
    let l = header.layout(40, 1).unwrap();
    assert_eq!(l.topic.as_deref(), Some("ABCDEFGHIJ..."));
    assert!(!l.separator);
    assert_eq!(l.right_width, 20);
    assert!(l.show_right);
}

#[test]
fn header_layout_left_takes_a_third() {
    let header = ChannelHeader::new().channel_name(Some("a-very-long-channel-name"));
    let l = header.layout(30, 1).unwrap();
    assert_eq!(l.left_area_width, 10);
    assert!(!l.show_right);
    assert!(l.online.is_none());
}

#[test]
fn header_layout_hides_right_without_room() {
    let header = ChannelHeader::new().channel_name(Some("general")).topic(Some("topic"));
    let l = header.layout(18, 1).unwrap();
    assert_eq!(l.topic.as_deref(), Some("..."));
    assert_eq!(l.right_width, 10);
    assert!(!l.show_right);
}

#[test]
fn header_layout_empty_area() {
    let header = ChannelHeader::new().channel_name(Some("general"));
    assert!(header.layout(0, 1).is_none());
    assert!(header.layout(10, 0).is_none());
}

#[test]
fn header_layout_refuses_cut_inside_a_character() {
    let header = ChannelHeader::new().channel_name(Some("x")).topic(Some("ééééé"));
    assert!(header.can_layout(30));
    assert_eq!(header.layout(30, 1).unwrap().topic.as_deref(), Some("ÉÉÉ..."));
    assert!(!header.can_layout(29));
}
