//! The mailbox: the messages that the logic thread sends to the render
//! thread, in the order in which they were sent.

use crate::ui::layout::Scale;
use crate::ui::loader::Loader;
use std::collections::VecDeque;
use vstd::prelude::*;

verus! {

/// A message to the render thread. `S` is what a screen is, `K` the way
/// back for a line of input, and `W` the way back for wrapped text.
pub enum UiMsg<S, K, W> {
    /// Make a picture and keep it under the given number.
    LoadImage(usize, Loader),
    /// Let go of the picture with the given number.
    UnloadImage(usize),
    /// Show a new screen.
    SetScreen(S),
    /// Handle no more messages in this frame, so that the screen is shown.
    Flush,
    /// Open the keyboard and send back what was typed.
    Keyboard { hint: &'static str, restrict: bool, blank_allowed: bool, reply: K },
    /// Wrap a text and send back its lines.
    WordWrap { text: String, width: u32, scale: Scale, tx: W },
    /// Leave the program.
    Quit,
}

/// Whether the render thread handles no message after `msg` in a frame.
pub open spec fn stops<S, K, W>(msg: UiMsg<S, K, W>) -> bool {
    msg is Flush || msg is Quit
}

/// How many messages of `queue` leave it in one frame: all of them up to
/// the first one that stops the frame, that one included.
pub open spec fn frame_len<S, K, W>(queue: Seq<UiMsg<S, K, W>>) -> nat
    decreases queue.len(),
{
    if queue.len() == 0 {
        0
    } else if stops(queue[0]) {
        1
    } else {
        1 + frame_len(queue.drop_first())
    }
}

/// The messages of `queue` that take effect in one frame, in their order:
/// those in front of the first one that stops the frame.
pub open spec fn frame_batch<S, K, W>(queue: Seq<UiMsg<S, K, W>>) -> Seq<UiMsg<S, K, W>> {
    let n = frame_len(queue) as int;
    if n > 0 && stops(queue[n - 1]) {
        queue.take(n - 1)
    } else {
        queue.take(n)
    }
}

/// Whether the program goes on after the frame: it does unless the frame
/// was stopped by `Quit`.
pub open spec fn frame_running<S, K, W>(queue: Seq<UiMsg<S, K, W>>) -> bool {
    let n = frame_len(queue) as int;
    !(n > 0 && queue[n - 1] is Quit)
}

/// Nothing stops a frame that ends with its last message, and the frame
/// never takes more than there is.
pub proof fn lemma_frame_len<S, K, W>(queue: Seq<UiMsg<S, K, W>>)
    ensures
        frame_len(queue) <= queue.len(),
        forall|i: int| 0 <= i < frame_len(queue) - 1 ==> !stops(#[trigger] queue[i]),
        frame_len(queue) < queue.len() ==> stops(queue[frame_len(queue) - 1]),
        queue.len() > 0 ==> frame_len(queue) > 0,
    decreases queue.len(),
{
    if queue.len() > 0 && !stops(queue[0]) {
        let rest = queue.drop_first();
        lemma_frame_len(rest);
        assert forall|i: int| 0 <= i < frame_len(queue) - 1 implies !stops(
            #[trigger] queue[i],
        ) by {
            if i > 0 {
                assert(queue[i] == rest[i - 1]);
            }
        }
    }
}

/// The queue of messages between the two threads.
pub struct Mailbox<S, K, W> {
    queue: VecDeque<UiMsg<S, K, W>>,
}

impl<S, K, W> Mailbox<S, K, W> {
    /// The messages that wait, the oldest first.
    pub closed spec fn view(&self) -> Seq<UiMsg<S, K, W>> {
        self.queue@
    }

    /// A mailbox in which nothing waits.
    pub fn new() -> (mailbox: Self)
        ensures
            mailbox@ == Seq::<UiMsg<S, K, W>>::empty(),
    {
        Mailbox { queue: VecDeque::new() }
    }

    /// Puts `msg` behind the messages that wait.
    pub fn send(&mut self, msg: UiMsg<S, K, W>)
        ensures
            final(self)@ == old(self)@.push(msg),
    {
        self.queue.push_back(msg);
    }

    /// Takes out the messages of one frame: the messages that wait, in
    /// their order, up to the first `Flush` or `Quit`. That message leaves
    /// the mailbox too and is not handed out. The second result is false if
    /// it was `Quit`: the program then ends.
    pub fn drain_once(&mut self) -> (frame: (Vec<UiMsg<S, K, W>>, bool))
        ensures
            frame.0@ == frame_batch(old(self)@),
            frame.1 == frame_running(old(self)@),
            final(self)@ == old(self)@.skip(frame_len(old(self)@) as int),
    {
        let mut batch: Vec<UiMsg<S, K, W>> = Vec::new();
        let mut running = true;
        let mut stopped = false;
        let ghost before = self.queue@;
        assert(before.skip(0) =~= before);
        while !stopped
            invariant
                before == old(self)@,
                batch@.len() <= before.len(),
                self.queue@ == before.skip(batch@.len() + if stopped { 1int } else { 0int }),
                batch@ == before.take(batch@.len() as int),
                forall|i: int| 0 <= i < batch@.len() ==> !stops(#[trigger] before[i]),
                stopped ==> batch@.len() < before.len() && stops(before[batch@.len() as int]),
                stopped ==> frame_len(before) == batch@.len() + 1,
                !stopped ==> frame_len(before) == batch@.len() + frame_len(self.queue@),
                running == !(stopped && before[batch@.len() as int] is Quit),
            decreases self.queue@.len() + if stopped { 0int } else { 1int },
        {
            let ghost waiting = self.queue@;
            match self.queue.pop_front() {
                None => {
                    assert(before.take(before.len() as int) =~= before);
                    assert(waiting.len() == 0);
                    proof {
                        lemma_frame_len(before);
                    }
                    return (batch, running);
                },
                Some(msg) => {
                    assert(msg == before[batch@.len() as int]);
                    assert(self.queue@ =~= before.skip(batch@.len() as int + 1));
                    assert(waiting.drop_first() =~= self.queue@);
                    match msg {
                        UiMsg::Flush => {
                            stopped = true;
                        },
                        UiMsg::Quit => {
                            stopped = true;
                            running = false;
                        },
                        other => {
                            batch.push(other);
                            assert(batch@ =~= before.take(batch@.len() as int));
                        },
                    }
                },
            }
        }
        (batch, running)
    }

    /// How many messages wait.
    pub fn len(&self) -> (len: usize)
        ensures
            len == self@.len(),
    {
        self.queue.len()
    }
}

} // verus!
