//! Passing on what a characteristic that was subscribed to sends.
use vstd::prelude::*;

use crate::driver::Reply;
#[allow(unused_imports)]
use crate::driver::{item_view, ReplyView};

verus! {

/// Passing notifications on. `I` is what the characteristic sends: data, or what went wrong.
#[derive(Debug)]
pub enum Notifying<I> {
    /// Let the characteristic send notifications.
    Start,
    /// Wait for the next notification.
    Next,
    /// Hand this to the caller's listener. Where `more` holds, more may follow.
    PassOn { item: I, more: bool },
    Finished,
}

pub type NotifyStep = Notifying<Result<Vec<u8>, String>>;

pub type NotifyView = Notifying<Result<Seq<u8>, Seq<char>>>;

impl View for Notifying<Result<Vec<u8>, String>> {
    type V = Notifying<Result<Seq<u8>, Seq<char>>>;

    open spec fn view(&self) -> Notifying<Result<Seq<u8>, Seq<char>>> {
        match *self {
            Notifying::Start => Notifying::Start,
            Notifying::Next => Notifying::Next,
            Notifying::PassOn { item, more } => Notifying::PassOn { item: item_view(item), more },
            Notifying::Finished => Notifying::Finished,
        }
    }
}

/// The step that follows a step and the driver's answer to it. A characteristic that cannot be
/// started is passed on as an error, which is the last thing passed on; an error that it sends is
/// not. An answer that does not belong to the step leaves it due.
pub open spec fn notify_next(step: NotifyView, reply: ReplyView) -> NotifyView {
    match (step, reply) {
        (Notifying::Start, ReplyView::NotifyStarted(Ok(_))) => Notifying::Next,
        (Notifying::Start, ReplyView::NotifyStarted(Err(message))) => Notifying::PassOn {
            item: Err(message),
            more: false,
        },
        (Notifying::Next, ReplyView::Notification(Some(item))) => Notifying::PassOn {
            item,
            more: true,
        },
        (Notifying::Next, ReplyView::Notification(None)) => Notifying::Finished,
        (Notifying::PassOn { item: _, more }, _) => if more {
            Notifying::Next
        } else {
            Notifying::Finished
        },
        (step, _) => step,
    }
}

impl Notifying<Result<Vec<u8>, String>> {
    /// The first step of passing notifications on.
    pub fn begin() -> (r: NotifyStep)
        ensures
            r@ == Notifying::<Result<Seq<u8>, Seq<char>>>::Start,
    {
        Notifying::Start
    }

    /// The step that follows when the driver has answered a step.
    pub fn advance(self, reply: Reply) -> (r: NotifyStep)
        ensures
            r@ == notify_next(self@, reply@),
    {
        match (self, reply) {
            (Notifying::Start, Reply::NotifyStarted(Ok(_))) => Notifying::Next,
            (Notifying::Start, Reply::NotifyStarted(Err(message))) => Notifying::PassOn {
                item: Err(message),
                more: false,
            },
            (Notifying::Next, Reply::Notification(Some(item))) => Notifying::PassOn {
                item,
                more: true,
            },
            (Notifying::Next, Reply::Notification(None)) => Notifying::Finished,
            (Notifying::PassOn { item: _, more }, _) => {
                if more {
                    Notifying::Next
                } else {
                    Notifying::Finished
                }
            },
            (step, _) => step,
        }
    }
}

/// The step that is due after a sequence of answers.
pub open spec fn notify_run(step: NotifyView, replies: Seq<ReplyView>) -> NotifyView
    decreases replies.len(),
{
    if replies.len() == 0 {
        step
    } else {
        notify_next(notify_run(step, replies.drop_last()), replies.last())
    }
}

/// What has come in on the way, in order: notifications, and why none could be had.
pub open spec fn came_in(step: NotifyView, replies: Seq<ReplyView>) -> Seq<Result<Seq<u8>, Seq<char>>>
    decreases replies.len(),
{
    if replies.len() == 0 {
        Seq::empty()
    } else {
        let earlier = came_in(step, replies.drop_last());
        match (notify_run(step, replies.drop_last()), replies.last()) {
            (Notifying::Start, ReplyView::NotifyStarted(Err(message))) => earlier.push(Err(message)),
            (Notifying::Next, ReplyView::Notification(Some(item))) => earlier.push(item),
            _ => earlier,
        }
    }
}

/// What was to be handed to the listener on the way, in order.
pub open spec fn passed_on(step: NotifyView, replies: Seq<ReplyView>) -> Seq<
    Result<Seq<u8>, Seq<char>>,
>
    decreases replies.len(),
{
    if replies.len() == 0 {
        Seq::empty()
    } else {
        let earlier = passed_on(step, replies.drop_last());
        match notify_run(step, replies) {
            Notifying::PassOn { item, more: _ } => earlier.push(item),
            _ => earlier,
        }
    }
}

/// Whatever comes in is passed on, once, in order and unchanged.
pub proof fn law_notifications_are_passed_on(step: NotifyView, replies: Seq<ReplyView>)
    ensures
        passed_on(step, replies) == came_in(step, replies),
    decreases replies.len(),
{
    if replies.len() > 0 {
        law_notifications_are_passed_on(step, replies.drop_last());
    }
}

/// A characteristic that cannot be started: that is passed on once, and nothing else is.
pub proof fn law_refusal_is_passed_on_once(message: Seq<char>, replies: Seq<ReplyView>)
    requires
        replies.len() >= 2,
        replies[0] == ReplyView::NotifyStarted(Err(message)),
    ensures
        notify_run(Notifying::Start, replies) is Finished,
        passed_on(Notifying::Start, replies) == seq![Err::<Seq<u8>, Seq<char>>(message)],
    decreases replies.len(),
{
    if replies.len() > 2 {
        law_refusal_is_passed_on_once(message, replies.drop_last());
    } else {
        let one = replies.drop_last();
        assert(one[0] == replies[0]);
        assert(one.last() == replies[0]);
        assert(one.drop_last() =~= Seq::empty());
        reveal_with_fuel(notify_run, 3);
        reveal_with_fuel(passed_on, 3);
        assert(passed_on(Notifying::Start, replies) =~= seq![Err::<Seq<u8>, Seq<char>>(message)]);
    }
}

/// Passing on ends only when the characteristic cannot be started or has nothing more to send; an
/// error that it sends ends nothing.
pub proof fn law_only_the_end_ends_it(replies: Seq<ReplyView>)
    requires
        notify_run(Notifying::Start, replies) is Finished,
    ensures
        exists|i: int|
            0 <= i < replies.len() && ((#[trigger] replies[i]) == ReplyView::Notification(None)
                || replies[i] matches ReplyView::NotifyStarted(Err(_))),
{
    lemma_end(replies);
}

proof fn lemma_end(replies: Seq<ReplyView>)
    ensures
        ({
            let ended = exists|i: int|
                0 <= i < replies.len() && ((#[trigger] replies[i]) == ReplyView::Notification(None)
                    || replies[i] matches ReplyView::NotifyStarted(Err(_)));
            match notify_run(Notifying::Start, replies) {
                Notifying::Finished => ended,
                Notifying::PassOn { item: _, more } => more || ended,
                _ => true,
            }
        }),
    decreases replies.len(),
{
    if replies.len() > 0 {
        let earlier = replies.drop_last();
        lemma_end(earlier);
        assert(replies[replies.len() - 1] == replies.last());
        if exists|i: int|
            0 <= i < earlier.len() && ((#[trigger] earlier[i]) == ReplyView::Notification(None)
                || earlier[i] matches ReplyView::NotifyStarted(Err(_))) {
            let i = choose|i: int|
                0 <= i < earlier.len() && ((#[trigger] earlier[i]) == ReplyView::Notification(None)
                    || earlier[i] matches ReplyView::NotifyStarted(Err(_)));
            assert(replies[i] == earlier[i]);
        }
    }
}

} // verus!
