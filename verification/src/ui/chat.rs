//! The chat: received messages, the line being typed, and whether the chat
//! box is open.

use std::collections::VecDeque;
use std::time::Instant;
use vstd::prelude::*;
use vstd::string::*;
use crate::world::block::registry::strings_view;

verus! {

/// The most messages the chat keeps; older ones are dropped.
pub const MAX_MESSAGES: usize = 100;

/// The most messages shown at once.
pub const VISIBLE_MESSAGES: usize = 10;

#[verifier::external_type_specification]
#[verifier::external_body]
pub struct ExInstant(Instant);

/// Reads the monotonic clock through `std::time::Instant::now`. Nothing is
/// stated of the reading: it depends on when the call is made.
#[verifier::external_body]
fn now() -> (r: Instant) {
    Instant::now()
}

/// A received message and when it arrived.
pub struct ChatLine {
    pub text: String,
    pub received: Instant,
}

/// The chat as its message texts, oldest first, the input line and whether it
/// is open.
pub struct ChatView {
    pub messages: Seq<Seq<char>>,
    pub input: Seq<char>,
    pub open: bool,
}

/// The texts of a list of chat lines.
pub open spec fn texts(lines: Seq<ChatLine>) -> Seq<Seq<char>> {
    lines.map_values(|l: ChatLine| l.text@)
}

/// The message texts after `text` arrives: it is appended, and the oldest
/// message is dropped when that makes more than [`MAX_MESSAGES`].
pub open spec fn push_spec(messages: Seq<Seq<char>>, text: Seq<char>) -> Seq<Seq<char>> {
    let t = messages.push(text);
    if t.len() > MAX_MESSAGES {
        t.drop_first()
    } else {
        t
    }
}

/// The messages to show, newest first, at most `limit` of them: every message
/// while the chat is open, otherwise only those whose flag in `recent` is set.
pub open spec fn shown_spec(messages: Seq<Seq<char>>, recent: Seq<bool>, open: bool, limit: nat) -> Seq<Seq<char>>
    decreases messages.len(),
{
    if messages.len() == 0 || limit == 0 {
        Seq::empty()
    } else if open || recent.last() {
        seq![messages.last()] + shown_spec(messages.drop_last(), recent.drop_last(), open, (limit - 1) as nat)
    } else {
        shown_spec(messages.drop_last(), recent.drop_last(), open, limit)
    }
}

/// The messages the chat may show, oldest first: every message while it is
/// open, otherwise those whose flag in `recent` is set.
pub open spec fn showable(messages: Seq<Seq<char>>, recent: Seq<bool>, open: bool) -> Seq<Seq<char>>
    decreases messages.len(),
{
    if messages.len() == 0 {
        Seq::empty()
    } else {
        let rest = showable(messages.drop_last(), recent.drop_last(), open);
        if open || recent.last() {
            rest.push(messages.last())
        } else {
            rest
        }
    }
}

/// The newest `limit` of `s`, newest first; all of `s` where it is shorter.
pub open spec fn newest(s: Seq<Seq<char>>, limit: nat) -> Seq<Seq<char>> {
    s.reverse().take(if limit < s.len() { limit as int } else { s.len() as int })
}

/// The chat shows no more than `limit` messages, open or closed: the newest of
/// those it may show, newest first. While it is open it may show every message.
pub proof fn lemma_shown_newest(messages: Seq<Seq<char>>, recent: Seq<bool>, open: bool, limit: nat)
    ensures
        shown_spec(messages, recent, open, limit) == newest(showable(messages, recent, open), limit),
        shown_spec(messages, recent, open, limit).len() <= limit,
        open ==> showable(messages, recent, open) == messages,
    decreases messages.len(),
{
    let s = showable(messages, recent, open);
    if messages.len() == 0 {
        assert(newest(s, limit) =~= Seq::<Seq<char>>::empty());
    } else {
        let m1 = messages.drop_last();
        let r1 = recent.drop_last();
        let s1 = showable(m1, r1, open);
        if limit == 0 {
            lemma_shown_newest(m1, r1, open, limit);
            assert(newest(s, limit) =~= Seq::<Seq<char>>::empty());
        } else if open || recent.last() {
            lemma_shown_newest(m1, r1, open, (limit - 1) as nat);
            let x = messages.last();
            assert(s == s1.push(x));
            assert(s.reverse() =~= seq![x] + s1.reverse());
            assert(newest(s, limit) =~= seq![x] + newest(s1, (limit - 1) as nat));
        } else {
            lemma_shown_newest(m1, r1, open, limit);
        }
        if open {
            assert(m1.push(messages.last()) =~= messages);
        }
    }
}

/// The message texts after each of `texts` arrives in turn.
pub open spec fn push_all(messages: Seq<Seq<char>>, texts: Seq<Seq<char>>) -> Seq<Seq<char>>
    decreases texts.len(),
{
    if texts.len() == 0 {
        messages
    } else {
        push_spec(push_all(messages, texts.drop_last()), texts.last())
    }
}

/// The last `MAX_MESSAGES` texts of `all`, or all of them where there are fewer.
pub open spec fn latest(all: Seq<Seq<char>>) -> Seq<Seq<char>> {
    if all.len() > MAX_MESSAGES {
        all.skip(all.len() - MAX_MESSAGES)
    } else {
        all
    }
}

/// However many messages arrive one after another, the chat holds the latest
/// of everything it has held and received, at most [`MAX_MESSAGES`] of them,
/// oldest first.
pub proof fn lemma_push_all(messages: Seq<Seq<char>>, texts: Seq<Seq<char>>)
    requires
        messages.len() <= MAX_MESSAGES,
    ensures
        push_all(messages, texts) == latest(messages + texts),
        push_all(messages, texts).len() <= MAX_MESSAGES,
    decreases texts.len(),
{
    if texts.len() == 0 {
        assert(messages + texts =~= messages);
    } else {
        let init = texts.drop_last();
        lemma_push_all(messages, init);
        let prev = push_all(messages, init);
        let all = messages + texts;
        let all0 = messages + init;
        assert(all0 =~= all.drop_last());
        assert(all.last() == texts.last());
        if all0.len() > MAX_MESSAGES {
            assert(prev.push(texts.last()) =~= all.skip(all0.len() - MAX_MESSAGES));
            assert(prev.push(texts.last()).drop_first() =~= all.skip(all.len() - MAX_MESSAGES));
        } else if all.len() > MAX_MESSAGES {
            assert(prev.push(texts.last()) =~= all);
            assert(all.drop_first() =~= all.skip(all.len() - MAX_MESSAGES));
        } else {
            assert(prev.push(texts.last()) =~= all);
        }
    }
}

/// Chat messages, the input line and whether the chat box is open.
pub struct ChatState {
    messages: VecDeque<ChatLine>,
    input: String,
    open: bool,
}

impl View for ChatState {
    type V = ChatView;

    closed spec fn view(&self) -> ChatView {
        ChatView { messages: texts(self.messages@), input: self.input@, open: self.open }
    }
}

impl ChatState {
    #[verifier::type_invariant]
    spec fn inv(self) -> bool {
        self.messages@.len() <= MAX_MESSAGES
    }

    /// A closed chat with no messages and an empty input line.
    pub fn new() -> (r: Self)
        ensures
            r@ == (ChatView { messages: Seq::empty(), input: Seq::empty(), open: false }),
    {
        let r = ChatState { messages: VecDeque::new(), input: String::new(), open: false };
        assert(texts(r.messages@) =~= Seq::<Seq<char>>::empty());
        r
    }

    /// Records a received message, stamped with the time it arrived.
    pub fn push_message(&mut self, text: String)
        ensures
            final(self)@ == (ChatView {
                messages: push_spec(old(self)@.messages, text@),
                input: old(self)@.input,
                open: old(self)@.open,
            }),
            final(self)@.messages.len() <= MAX_MESSAGES,
    {
        proof {
            use_type_invariant(&*self);
        }
        let ghost before = self.messages@;
        let ghost t = text@;
        let mut messages: VecDeque<ChatLine> = VecDeque::new();
        std::mem::swap(&mut messages, &mut self.messages);
        messages.push_back(ChatLine { text, received: now() });
        assert(texts(messages@) =~= texts(before).push(t));
        if messages.len() > MAX_MESSAGES {
            let _ = messages.pop_front();
            assert(texts(messages@) =~= texts(before).push(t).drop_first());
        }
        self.messages = messages;
    }

    /// Whether the chat box is open.
    pub fn is_open(&self) -> (r: bool)
        ensures
            r == self@.open,
    {
        self.open
    }

    /// Opens the chat box with an empty input line.
    pub fn open(&mut self)
        ensures
            final(self)@ == (ChatView { messages: old(self)@.messages, input: Seq::empty(), open: true }),
    {
        proof {
            use_type_invariant(&*self);
        }
        self.open = true;
        self.input = String::new();
    }

    /// Opens the chat box with a command slash already typed.
    pub fn open_with_slash(&mut self)
        ensures
            final(self)@ == (ChatView { messages: old(self)@.messages, input: "/"@, open: true }),
    {
        proof {
            use_type_invariant(&*self);
        }
        self.open = true;
        self.input = String::from_str("/");
    }

    /// Closes the chat box and clears the input line.
    pub fn close(&mut self)
        ensures
            final(self)@ == (ChatView { messages: old(self)@.messages, input: Seq::empty(), open: false }),
    {
        proof {
            use_type_invariant(&*self);
        }
        self.open = false;
        self.input = String::new();
    }

    /// The line being typed.
    pub fn input(&self) -> (r: &str)
        ensures
            r@ == self@.input,
    {
        self.input.as_str()
    }

    /// Replaces the line being typed.
    pub fn set_input(&mut self, input: String)
        ensures
            final(self)@ == (ChatView { messages: old(self)@.messages, input: input@, open: old(self)@.open }),
    {
        proof {
            use_type_invariant(&*self);
        }
        self.input = input;
    }

    /// The received messages, oldest first.
    pub fn messages(&self) -> (r: &VecDeque<ChatLine>)
        ensures
            texts(r@) == self@.messages,
    {
        &self.messages
    }

    /// Closes the chat box; if it was open with something typed, hands out
    /// that line and clears it, otherwise hands out nothing and leaves the
    /// input line as it was.
    pub fn take_pending_message(&mut self) -> (r: Option<String>)
        ensures
            (r is Some) == (old(self)@.open && old(self)@.input.len() > 0),
            r matches Some(m) ==> m@ == old(self)@.input,
            final(self)@ == (ChatView {
                messages: old(self)@.messages,
                input: if r is Some { Seq::empty() } else { old(self)@.input },
                open: false,
            }),
    {
        proof {
            use_type_invariant(&*self);
        }
        if self.open && !self.input.as_str().is_empty() {
            let msg = self.input.clone();
            self.input = String::new();
            self.open = false;
            Some(msg)
        } else {
            self.open = false;
            None
        }
    }

    /// The texts to draw, newest first and at most [`VISIBLE_MESSAGES`]: all
    /// recent messages while the chat is open, otherwise those whose flag in
    /// `recent` (one per message, oldest first) says they are still fresh.
    pub fn visible_lines(&self, recent: &Vec<bool>) -> (r: Vec<String>)
        requires
            recent@.len() == self@.messages.len(),
        ensures
            strings_view(r@) == shown_spec(self@.messages, recent@, self@.open, VISIBLE_MESSAGES as nat),
            strings_view(r@) == newest(showable(self@.messages, recent@, self@.open), VISIBLE_MESSAGES as nat),
            r@.len() <= VISIBLE_MESSAGES,
            self@.open ==> r@.len() == (if self@.messages.len() < VISIBLE_MESSAGES {
                self@.messages.len()
            } else {
                VISIBLE_MESSAGES as nat
            }),
            self@.open ==> forall|k: int|
                0 <= k < r@.len() ==> #[trigger] r@[k]@ == self@.messages[self@.messages.len() - 1 - k],
    {
        proof {
            lemma_shown_newest(self@.messages, recent@, self@.open, VISIBLE_MESSAGES as nat);
        }
        let ghost msgs = texts(self.messages@);
        let n: usize = self.messages.len();
        let mut out: Vec<String> = Vec::new();
        let mut i: usize = n;
        let mut left: usize = VISIBLE_MESSAGES;
        assert(msgs.take(n as int) =~= msgs);
        assert(recent@.take(n as int) =~= recent@);
        assert(strings_view(out@) =~= Seq::<Seq<char>>::empty());
        while i > 0 && left > 0
            invariant
                n == self.messages@.len(),
                msgs == texts(self.messages@),
                recent@.len() == n,
                i <= n,
                left <= VISIBLE_MESSAGES,
                strings_view(out@) + shown_spec(msgs.take(i as int), recent@.take(i as int), self.open, left as nat)
                    == shown_spec(msgs, recent@, self.open, VISIBLE_MESSAGES as nat),
            decreases i,
        {
            let ghost before = out@;
            let ghost mi = msgs.take(i as int);
            let ghost ri = recent@.take(i as int);
            proof {
                assert(mi.drop_last() =~= msgs.take(i - 1));
                assert(ri.drop_last() =~= recent@.take(i - 1));
                assert(mi.last() == self.messages@[i - 1].text@);
                assert(ri.last() == recent@[i - 1]);
            }
            if self.open || recent[i - 1] {
                out.push(self.messages[i - 1].text.clone());
                left = left - 1;
                assert(strings_view(out@) =~= strings_view(before).push(mi.last()));
                assert(strings_view(out@) + shown_spec(msgs.take(i - 1), recent@.take(i - 1), self.open, left as nat)
                    =~= strings_view(before) + shown_spec(mi, ri, self.open, (left + 1) as nat));
            }
            i = i - 1;
        }
        assert(msgs.take(n as int) =~= msgs);
        proof {
            assert(shown_spec(msgs.take(i as int), recent@.take(i as int), self.open, left as nat) =~= Seq::<Seq<char>>::empty());
        }
        assert(strings_view(out@) =~= strings_view(out@) + Seq::<Seq<char>>::empty());
        proof {
            if self.open {
                let m = self@.messages;
                assert forall|k: int| 0 <= k < out@.len() implies #[trigger] out@[k]@ == m[m.len() - 1 - k] by {
                    assert(strings_view(out@)[k] == out@[k]@);
                    assert(newest(m, VISIBLE_MESSAGES as nat)[k] == m.reverse()[k]);
                }
            }
        }
        out
    }
}

} // verus!
