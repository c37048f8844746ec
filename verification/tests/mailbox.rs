use minder::mailbox::{Mailbox, MailboxMessage};

fn msg(from: &str, to: &str, content: &str) -> MailboxMessage {
    MailboxMessage { from: from.to_string(), to: to.to_string(), content: content.to_string() }
}

#[test]
fn take_for_returns_only_messages_addressed_to_that_name_in_send_order() {
    let mut mailbox = Mailbox::new();
    mailbox.send(msg("a", "b", "first"));
    mailbox.send(msg("a", "c", "not for b"));
    mailbox.send(msg("a", "b", "second"));

    let mine = mailbox.take_for("b");
    assert_eq!(mine.len(), 2);
    assert_eq!(mine[0].content, "first");
    assert_eq!(mine[1].content, "second");
}

#[test]
fn take_for_drains_so_a_message_is_delivered_at_most_once() {
    let mut mailbox = Mailbox::new();
    mailbox.send(msg("a", "b", "only once"));

    assert_eq!(mailbox.take_for("b").len(), 1);
    assert_eq!(mailbox.take_for("b").len(), 0);
}

#[test]
fn messages_for_other_recipients_are_left_untouched() {
    let mut mailbox = Mailbox::new();
    mailbox.send(msg("a", "c", "for c"));

    assert_eq!(mailbox.take_for("b").len(), 0);
    assert_eq!(mailbox.take_for("c").len(), 1);
}
