use hello::limit_tracker::{
    quota_level, LimitTracker, Messenger, QuotaLevel, OVER_NOTICE, URGENT_NOTICE, WARNING_NOTICE,
};
use std::cell::RefCell;

struct MockMessenger {
    send_messages: RefCell<Vec<String>>,
}

impl MockMessenger {
    fn new() -> MockMessenger {
        MockMessenger {
            send_messages: RefCell::new(vec![]),
        }
    }
}

impl Messenger for MockMessenger {
    fn send(&self, msg: &str) {
        self.send_messages.borrow_mut().push(String::from(msg));
    }
}

#[test]
fn it_sends_an_over_75_percent_warning_message() {
    let mock_messenger = MockMessenger::new();
    let mut limit_tracker = LimitTracker::new(&mock_messenger, 100);

    limit_tracker.set_value(80);

    assert_eq!(mock_messenger.send_messages.borrow().len(), 1);
}

#[test]
fn notices_by_level() {
    let mock = MockMessenger::new();
    let mut tracker = LimitTracker::new(&mock, 100);
    tracker.set_value(74);
    tracker.set_value(75);
    tracker.set_value(90);
    tracker.set_value(100);
    tracker.set_value(150);
    assert_eq!(
        *mock.send_messages.borrow(),
        vec![
            WARNING_NOTICE.to_string(),
            URGENT_NOTICE.to_string(),
            OVER_NOTICE.to_string(),
            OVER_NOTICE.to_string()
        ]
    );
}

#[test]
fn quota_level_thresholds() {
    assert_eq!(quota_level(0, 100), QuotaLevel::Fine);
    assert_eq!(quota_level(74, 100), QuotaLevel::Fine);
    assert_eq!(quota_level(75, 100), QuotaLevel::Warning);
    assert_eq!(quota_level(89, 100), QuotaLevel::Warning);
    assert_eq!(quota_level(90, 100), QuotaLevel::Urgent);
    assert_eq!(quota_level(99, 100), QuotaLevel::Urgent);
    assert_eq!(quota_level(100, 100), QuotaLevel::Over);
    assert_eq!(quota_level(0, 0), QuotaLevel::Fine);
    assert_eq!(quota_level(1, 0), QuotaLevel::Over);
    assert_eq!(quota_level(usize::MAX, usize::MAX), QuotaLevel::Over);
    assert_eq!(quota_level(usize::MAX - 1, usize::MAX), QuotaLevel::Urgent);
}

#[test]
fn fine_level_has_no_notice() {
    assert_eq!(QuotaLevel::Fine.notice(), None);
    assert_eq!(QuotaLevel::Over.notice(), Some(OVER_NOTICE));
}
