//! Messages between agents that run side by side.
use vstd::prelude::*;

use crate::model::{group_views, views};
use crate::text::same;

verus! {

broadcast use group_views;

/// A message from one agent to another.
pub struct MailboxMessage {
    pub from: String,
    pub to: String,
    pub content: String,
}

#[verifier::ext_equal]
pub struct MailView {
    pub from: Seq<char>,
    pub to: Seq<char>,
    pub content: Seq<char>,
}

impl View for MailboxMessage {
    type V = MailView;

    open spec fn view(&self) -> MailView {
        MailView { from: self.from@, to: self.to@, content: self.content@ }
    }
}

/// The messages that nobody has taken yet, in the order in which they were
/// sent.
pub struct Mailbox {
    messages: Vec<MailboxMessage>,
}

impl View for Mailbox {
    type V = Seq<MailView>;

    closed spec fn view(&self) -> Seq<MailView> {
        views(self.messages@)
    }
}

/// The messages to `name` (or, if not `mine`, those to others), in order.
pub open spec fn addressed(ms: Seq<MailView>, name: Seq<char>, mine: bool) -> Seq<MailView>
    decreases ms.len(),
{
    if ms.len() == 0 {
        Seq::empty()
    } else {
        let rest = addressed(ms.drop_last(), name, mine);
        if (ms.last().to == name) == mine {
            rest.push(ms.last())
        } else {
            rest
        }
    }
}

impl Mailbox {
    /// An empty mailbox.
    pub fn new() -> (r: Mailbox)
        ensures
            r@ == Seq::<MailView>::empty(),
    {
        Mailbox { messages: Vec::new() }
    }

    /// Adds a message.
    pub fn send(&mut self, msg: MailboxMessage)
        ensures
            final(self)@ == old(self)@.push(msg@),
    {
        self.messages.push(msg);
    }

    /// Takes out every message to `name`, in the order in which they were sent.
    pub fn take_for(&mut self, name: &str) -> (r: Vec<MailboxMessage>)
        ensures
            views(r@) == addressed(old(self)@, name@, true),
            final(self)@ == addressed(old(self)@, name@, false),
    {
        let mut all: Vec<MailboxMessage> = Vec::new();
        std::mem::swap(&mut all, &mut self.messages);
        let ghost before = views(all@);
        let ghost items = all@;
        let mut mine: Vec<MailboxMessage> = Vec::new();
        let mut rest: Vec<MailboxMessage> = Vec::new();
        for msg in it: all
            invariant
                it.seq() == items,
                before == views(items),
                views(mine@) == addressed(before.take(it.index() as int), name@, true),
                views(rest@) == addressed(before.take(it.index() as int), name@, false),
        {
            let ghost i = it.index();
            assert(before.take(i + 1).drop_last() == before.take(i as int));
            assert(before.take(i + 1).last() == msg@);
            if same(msg.to.as_str(), name) {
                mine.push(msg);
            } else {
                rest.push(msg);
            }
        }
        assert(before.take(before.len() as int) == before);
        self.messages = rest;
        mine
    }
}

/// Taking twice finds nothing the second time, and takes nothing from others.
pub proof fn law_messages_are_delivered_once(
    ms: Seq<MailView>,
    name: Seq<char>,
    other: Seq<char>,
)
    requires
        other != name,
    ensures
        addressed(addressed(ms, name, false), name, true).len() == 0,
        addressed(addressed(ms, name, false), other, true) == addressed(ms, other, true),
        addressed(ms, name, true).len() + addressed(ms, name, false).len() == ms.len(),
    decreases ms.len(),
{
    if ms.len() > 0 {
        law_messages_are_delivered_once(ms.drop_last(), name, other);
        let rest = addressed(ms.drop_last(), name, false);
        if ms.last().to != name {
            assert(rest.push(ms.last()).drop_last() =~= rest);
        }
    }
}

} // verus!
