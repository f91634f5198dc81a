use oxicord_ui::images::{clear_distant_protocols, collect_needed_loads, ImageSlot, ImageStatus};

fn slot(id: &str, url: &str) -> ImageSlot {
    ImageSlot::new(id.to_string(), url.to_string())
}

#[test]
fn test_image_attachment_creation() {
    let attachment = slot("test", "https://example.com/img.png");
    assert_eq!(attachment.id, "test");
    assert!(!attachment.is_ready());
    assert!(attachment.needs_load());
}

#[test]
fn test_image_attachment_loading_flow() {
    let mut attachment = slot("test", "https://example.com/img.png");
    assert!(attachment.needs_load());
    attachment.set_downloading();
    assert!(attachment.is_loading());
    assert!(!attachment.needs_load());
    attachment.set_loaded();
    assert!(attachment.is_ready());
    assert!(!attachment.is_loading());
}

#[test]
fn test_image_attachment_failure() {
    let mut attachment = slot("test", "https://example.com/img.png");
    attachment.set_failed("Network error".to_string());
    assert!(attachment.is_failed());
    assert!(!attachment.is_ready());
}

#[test]
fn test_collect_needed_loads() {
    let attachments: Vec<ImageSlot> = (0..5).map(|i| slot(&i.to_string(), &format!("url{i}"))).collect();
    let needed = collect_needed_loads(&attachments, 1, 2);
    assert!(needed.len() >= 2);
}

#[test]
fn needed_loads_are_near_and_not_started() {
    let mut attachments: Vec<ImageSlot> = (0..20).map(|i| slot(&i.to_string(), &format!("url{i}"))).collect();
    attachments[9].set_downloading();
    let needed = collect_needed_loads(&attachments, 8, 10);
    let ids: Vec<&str> = needed.iter().map(|(id, _)| id.as_str()).collect();
    assert_eq!(ids, vec!["3", "4", "5", "6", "7", "8", "10", "11", "12", "13", "14", "15"]);
    assert_eq!(needed[0].1, "url3");
}

#[test]
fn distant_images_are_let_go() {
    let mut attachments: Vec<ImageSlot> = (0..40).map(|i| slot(&i.to_string(), "u")).collect();
    for a in attachments.iter_mut() {
        a.set_loaded();
        a.has_protocol = true;
    }
    clear_distant_protocols(&mut attachments, 20, 21);
    assert!(attachments[15].has_protocol);
    assert!(!attachments[14].has_protocol);
    assert!(attachments[14].has_image);
    assert!(attachments[5].has_image);
    assert!(!attachments[4].has_image);
    assert_eq!(attachments[4].status, ImageStatus::NotStarted);
    assert!(attachments[36].has_image);
    assert!(!attachments[37].has_image);
    assert!(attachments[26].has_protocol);
    assert!(!attachments[27].has_protocol);
}
