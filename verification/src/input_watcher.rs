//! Keys that are typed over a running turn where there is no input box.
use vstd::prelude::*;

use crate::input_box::{Key, KeyCode};
use crate::model::{group_views, opt_view};
use crate::text::text_of;

verus! {

broadcast use group_views;

/// What is typed so far.
pub struct InputWatcher {
    buffer: Vec<char>,
}

impl View for InputWatcher {
    type V = Seq<char>;

    closed spec fn view(&self) -> Seq<char> {
        self.buffer@
    }
}

/// What a key does.
pub struct WatchStep {
    /// What is written to the terminal.
    pub echo: String,
    /// The turn is to be cancelled.
    pub cancel: bool,
    /// What was entered, for the running turn.
    pub steer: Option<String>,
}

#[verifier::ext_equal]
pub struct WatchView {
    pub echo: Seq<char>,
    pub cancel: bool,
    pub steer: Option<Seq<char>>,
}

impl View for WatchStep {
    type V = WatchView;

    open spec fn view(&self) -> WatchView {
        WatchView { echo: self.echo@, cancel: self.cancel, steer: opt_view(self.steer) }
    }
}

/// What takes one character from the terminal.
pub open spec fn rub_out() -> Seq<char> {
    "\u{8} \u{8}"@
}

/// What takes `n` characters from the terminal.
pub open spec fn rubbed_out(n: nat) -> Seq<char>
    decreases n,
{
    if n == 0 {
        Seq::empty()
    } else {
        rubbed_out((n - 1) as nat) + rub_out()
    }
}

/// What clears a line that is being typed.
pub open spec fn cleared(buffer: Seq<char>) -> Seq<char> {
    if buffer.len() == 0 {
        Seq::empty()
    } else {
        rubbed_out(buffer.len()) + "\r\n"@
    }
}

/// Nothing but what is written to the terminal.
pub open spec fn echo_only(echo: Seq<char>) -> WatchView {
    WatchView { echo, cancel: false, steer: None }
}

/// What a key does to the line that is typed, and else.
pub open spec fn watch_key(buffer: Seq<char>, key: Key) -> (Seq<char>, WatchView) {
    if key.code == KeyCode::Esc || (key.code == KeyCode::Char('c') && key.control) {
        (Seq::empty(), WatchView { echo: cleared(buffer), cancel: true, steer: None })
    } else {
        match key.code {
            KeyCode::Enter => if buffer.len() > 0 {
                (
                    Seq::empty(),
                    WatchView { echo: "\r\n"@, cancel: false, steer: Some(buffer) },
                )
            } else {
                (buffer, echo_only(Seq::empty()))
            },
            KeyCode::Backspace => if buffer.len() > 0 {
                (buffer.drop_last(), echo_only(rub_out()))
            } else {
                (buffer, echo_only(Seq::empty()))
            },
            KeyCode::Char(c) => (
                buffer.push(c),
                echo_only(
                    if buffer.len() == 0 {
                        "\r\n"@ + "» "@ + seq![c]
                    } else {
                        seq![c]
                    },
                ),
            ),
            _ => (buffer, echo_only(Seq::empty())),
        }
    }
}

/// Clears a line that is being typed; gives what is to be written for it.
pub fn clear_echoed_buffer(buffer: &mut Vec<char>) -> (r: String)
    ensures
        final(buffer)@.len() == 0,
        r@ == cleared(old(buffer)@),
{
    let n: usize = buffer.len();
    let mut r = String::new();
    if n == 0 {
        return r;
    }
    for i in 0..n
        invariant
            r@ == rubbed_out(i as nat),
    {
        r.append("\u{8} \u{8}");
    }
    r.append("\r\n");
    buffer.clear();
    r
}

fn only(echo: String) -> (r: WatchStep)
    ensures
        r@ == echo_only(echo@),
{
    WatchStep { echo, cancel: false, steer: None }
}

impl InputWatcher {
    /// Nothing is typed yet.
    pub fn new() -> (r: InputWatcher)
        ensures
            r@ == Seq::<char>::empty(),
    {
        InputWatcher { buffer: Vec::new() }
    }

    /// Handles a key.
    pub fn handle_key(&mut self, key: Key) -> (r: WatchStep)
        ensures
            (final(self)@, r@) == watch_key(old(self)@, key),
    {
        if key.code == KeyCode::Esc || (key.code == KeyCode::Char('c') && key.control) {
            let echo = clear_echoed_buffer(&mut self.buffer);
            assert(self@ =~= Seq::empty());
            return WatchStep { echo, cancel: true, steer: None };
        }
        let n: usize = self.buffer.len();
        match key.code {
            KeyCode::Enter => {
                if n > 0 {
                    let line = text_of(&self.buffer);
                    self.buffer = Vec::new();
                    WatchStep { echo: "\r\n".to_owned(), cancel: false, steer: Some(line) }
                } else {
                    only(String::new())
                }
            },
            KeyCode::Backspace => {
                if n > 0 {
                    self.buffer.truncate(n - 1);
                    assert(self@ =~= old(self)@.drop_last());
                    only("\u{8} \u{8}".to_owned())
                } else {
                    only(String::new())
                }
            },
            KeyCode::Char(c) => {
                let mut echo = String::new();
                if n == 0 {
                    echo.append("\r\n");
                    echo.append("» ");
                }
                echo.push(c);
                self.buffer.push(c);
                assert(echo@ =~= (if n == 0 {
                    "\r\n"@ + "» "@ + seq![c]
                } else {
                    seq![c]
                }));
                only(echo)
            },
            _ => only(String::new()),
        }
    }
}

/// What is typed after some keys.
pub open spec fn watched(buffer: Seq<char>, keys: Seq<Key>) -> Seq<char>
    decreases keys.len(),
{
    if keys.len() == 0 {
        buffer
    } else {
        watch_key(watched(buffer, keys.drop_last()), keys.last()).0
    }
}

/// Typing a line and Enter hands that line to the turn, and leaves nothing
/// behind.
pub proof fn law_typed_line_is_handed_over(line: Seq<char>, keys: Seq<Key>, enter: Key)
    requires
        line.len() > 0,
        keys.len() == line.len(),
        forall|i: int|
            0 <= i < keys.len() ==> (#[trigger] keys[i]).code == KeyCode::Char(line[i])
                && !keys[i].control,
        enter.code == KeyCode::Enter,
    ensures
        watched(Seq::empty(), keys) == line,
        watch_key(watched(Seq::empty(), keys), enter).1.steer == Some(line),
        watch_key(watched(Seq::empty(), keys), enter).0 == Seq::<char>::empty(),
    decreases line.len(),
{
    let before = line.drop_last();
    assert(before.push(line.last()) == line);
    if before.len() > 0 {
        law_typed_line_is_handed_over(before, keys.drop_last(), enter);
    } else {
        assert(watched(Seq::empty(), keys.drop_last()) == before);
    }
}

} // verus!
