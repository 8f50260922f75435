use gakumas_screenshot::queue::{create_work_queue, OcrWorkItem, Received};

fn item(path: &str, iteration: u32) -> OcrWorkItem {
    OcrWorkItem::new(path.to_string(), iteration, "2026-01-15T10:00:00".to_string())
}

#[test]
fn test_work_queue_send_receive() {
    let mut queue = create_work_queue();

    // Send a work item
    let item = OcrWorkItem::new(
        "test/screenshot.png".to_string(),
        1,
        "2026-01-15T10:00:00".to_string(),
    );
    queue.send(item).expect("Failed to send");

    // Receive it
    let received = match queue.recv() {
        Received::Item(item) => item,
        other => panic!("Failed to receive: {:?}", other),
    };
    assert_eq!(received.iteration, 1);
    assert_eq!(received.screenshot_path, "test/screenshot.png");
}

#[test]
fn test_work_queue_multiple_items() {
    let mut queue = create_work_queue();

    // Send multiple items
    for i in 1..=5 {
        let item = item(&format!("screenshot_{}.png", i), i);
        queue.send(item).expect("Failed to send");
    }

    // Receive all items in order
    for i in 1..=5 {
        let received = match queue.recv() {
            Received::Item(item) => item,
            other => panic!("Failed to receive: {:?}", other),
        };
        assert_eq!(received.iteration, i);
    }
}

#[test]
fn test_channel_closes_when_sender_dropped() {
    let mut queue = create_work_queue();

    queue.send(item("test.png", 1)).unwrap();

    // Close the producer's side
    queue.close();

    // First recv should succeed
    assert!(matches!(queue.recv(), Received::Item(_)));

    // Second recv should fail (channel closed)
    assert_eq!(queue.recv(), Received::Closed);
}

#[test]
fn closing_delivers_everything_queued_before_the_closure() {
    for n in [0u32, 1, 2, 17] {
        let mut queue = create_work_queue();
        for i in 1..=n {
            assert_eq!(queue.send(item(&format!("{}.png", i), i)), Ok(()));
        }
        assert_eq!(queue.len(), n as usize);
        queue.close();
        assert!(queue.is_closed());
        for i in 1..=n {
            assert_eq!(queue.recv(), Received::Item(item(&format!("{}.png", i), i)));
        }
        assert!(queue.is_empty());
        assert_eq!(queue.recv(), Received::Closed);
        assert_eq!(queue.recv(), Received::Closed);
    }
}

#[test]
fn an_open_empty_queue_reports_empty() {
    let mut queue = create_work_queue();
    assert!(queue.is_empty());
    assert!(!queue.is_closed());
    assert_eq!(queue.recv(), Received::Empty);
    queue.send(item("a.png", 1)).unwrap();
    assert_eq!(queue.recv(), Received::Item(item("a.png", 1)));
    assert_eq!(queue.recv(), Received::Empty);
}

#[test]
fn a_closed_or_abandoned_queue_hands_the_item_back() {
    let mut queue = create_work_queue();
    queue.send(item("a.png", 1)).unwrap();
    queue.close();
    assert_eq!(queue.send(item("b.png", 2)), Err(item("b.png", 2)));
    assert_eq!(queue.len(), 1);

    let mut queue = create_work_queue();
    queue.send(item("a.png", 1)).unwrap();
    queue.abandon();
    assert_eq!(queue.len(), 0);
    assert_eq!(queue.send(item("b.png", 2)), Err(item("b.png", 2)));
    assert_eq!(queue.recv(), Received::Empty);
}
