use lliminal::chat::{Chat, Count, InputAction, KeyPress, UpdateCountCommand};
use lliminal::message::{
    AssistantMessageContent, AssistantMessagePart, Message, UserMessageContent, UserMessagePart,
};

fn user(text: &str) -> Message {
    Message::User {
        parts: vec![UserMessagePart { content: UserMessageContent::Text { text: text.to_string() } }],
    }
}

#[test]
fn submit_appends_user_message_and_waits() {
    let mut chat = Chat::default();
    assert!(chat.user_input);
    chat.submit_user_input("Hello");
    assert_eq!(chat.messages, vec![user("Hello")]);
    assert!(!chat.user_input);
    chat.wait_for_user();
    assert!(chat.user_input);
    let request = chat.completion_request();
    assert!(request.system.is_empty());
    assert_eq!(request.messages, vec![user("Hello")]);
}

#[test]
fn show_response_follows_sent_messages() {
    let mut chat = Chat::default();
    chat.submit_user_input("Q");
    let sent = chat.messages.clone();
    let answer = vec![Message::Assistant {
        parts: vec![AssistantMessagePart {
            complete: false,
            content: AssistantMessageContent::Text { text: "A".to_string() },
        }],
    }];
    chat.show_response(&sent, answer.clone());
    chat.show_response(&sent, answer.clone());
    assert_eq!(chat.messages, vec![user("Q"), answer[0].clone()]);
}

#[test]
fn scrolling_saturates() {
    let mut chat = Chat::default();
    chat.scroll_down(3);
    assert_eq!(chat.scroll, 0);
    chat.scroll_up(5);
    chat.scroll_down(2);
    assert_eq!(chat.scroll, 3);
    chat.scroll_up(usize::MAX);
    assert_eq!(chat.scroll, usize::MAX);
}

#[test]
fn counter_saturates() {
    let mut count = Count::default();
    count.update(UpdateCountCommand::Decrease);
    assert_eq!(count.count, 0);
    count.update(UpdateCountCommand::Increase);
    count.update(UpdateCountCommand::Increase);
    assert_eq!(count.count, 2);
    let mut top = Count { count: usize::MAX };
    top.update(UpdateCountCommand::Increase);
    assert_eq!(top.count, usize::MAX);
}

#[test]
fn key_presses_follow_input_mode() {
    let mut chat = Chat::default();
    assert_eq!(chat.input_action(KeyPress::Enter), InputAction::Submit);
    assert_eq!(chat.input_action(KeyPress::Other), InputAction::Edit);
    assert_eq!(chat.input_action(KeyPress::Interrupt), InputAction::Quit);
    chat.submit_user_input("x");
    assert_eq!(chat.input_action(KeyPress::Enter), InputAction::Ignore);
    assert_eq!(chat.input_action(KeyPress::Other), InputAction::Ignore);
    assert_eq!(chat.input_action(KeyPress::Interrupt), InputAction::Quit);
}
