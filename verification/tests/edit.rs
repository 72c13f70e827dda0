use llm_chat::edit::{edit_at, edit_transcript};
use llm_chat::models::{ChatSession, Message, Role};
use llm_chat::orchestrator::Phase;
use llm_chat::store::SessionStore;

fn talk() -> Vec<Message> {
    vec![
        Message::new(Role::System, "sys".to_string()),
        Message::new(Role::User, "one".to_string()),
        Message::new(Role::Assistant, "two".to_string()),
        Message::new(Role::User, "three".to_string()),
        Message::new(Role::Assistant, "four".to_string()),
    ]
}

fn store() -> SessionStore {
    let mut store =
        SessionStore::with_session(ChatSession::with_id("s".to_string(), "sys".to_string(), 0));
    store.update_messages("s", talk());
    store
}

fn contents(messages: &[Message]) -> Vec<String> {
    messages.iter().map(|m| m.content.clone()).collect()
}

#[test]
fn edit_truncates_after_the_edited_message() {
    for index in [1usize, 3] {
        let edited = edit_transcript(&talk(), index, "new").unwrap();
        assert_eq!(edited.len(), index + 1);
        assert_eq!(edited[index].content, "new");
        assert_eq!(edited[index].role, Role::User);
        assert_eq!(contents(&edited[..index]), contents(&talk()[..index]));
    }
}

#[test]
fn only_user_messages_can_be_edited() {
    assert!(edit_transcript(&talk(), 0, "x").is_none());
    assert!(edit_transcript(&talk(), 2, "x").is_none());
    assert!(edit_transcript(&talk(), 4, "x").is_none());
    assert!(edit_transcript(&talk(), 5, "x").is_none());
    assert!(edit_transcript(&Vec::new(), 0, "x").is_none());
}

#[test]
fn edit_at_resumes_from_the_edited_message() {
    let mut store = store();
    let run = edit_at(&mut store, "s", 1, "uno", false, true).unwrap();
    assert_eq!(run.phase(), Phase::Sending);
    assert_eq!(contents(&store.messages_of("s")), vec!["sys", "uno"]);
    assert_eq!(contents(run.transcript()), vec!["sys", "uno"]);
    let request = run.request("m");
    assert_eq!(contents(&request.messages), vec!["sys", "uno"]);
    assert!(request.stream);
}

#[test]
fn edit_at_is_refused_while_a_completion_is_in_flight() {
    let mut store = store();
    assert!(edit_at(&mut store, "s", 1, "uno", true, true).is_none());
    assert_eq!(store.messages_of("s").len(), 5);
    assert_eq!(store.messages_of("s")[1].content, "one");
}

#[test]
fn edit_at_is_refused_for_other_messages_and_sessions() {
    let mut store = store();
    assert!(edit_at(&mut store, "s", 2, "x", false, false).is_none());
    assert!(edit_at(&mut store, "s", 9, "x", false, false).is_none());
    assert!(edit_at(&mut store, "t", 1, "x", false, false).is_none());
    assert_eq!(contents(&store.messages_of("s")), vec!["sys", "one", "two", "three", "four"]);
}
