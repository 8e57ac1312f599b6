//! Reading the reply to a sub-call: its text and how it ended.

use vstd::prelude::*;

use crate::error::ApiErrorKind;
use crate::events::{CoreEvent, CoreEventView, Usage};

verus! {

/// How a reply ended.
#[derive(Debug)]
pub enum ReplyEnd {
    /// With a terminal success event.
    Done(Option<Usage>),
    /// With a terminal failure event.
    Failed { kind: ApiErrorKind, message: String },
    /// Without a terminal event.
    Closed,
}

/// The content of a [`ReplyEnd`].
#[verifier::ext_equal]
pub enum ReplyEndView {
    Done(Option<Usage>),
    Failed { kind: ApiErrorKind, message: Seq<char> },
    Closed,
}

impl View for ReplyEnd {
    type V = ReplyEndView;

    open spec fn view(&self) -> ReplyEndView {
        match self {
            ReplyEnd::Done(u) => ReplyEndView::Done(*u),
            ReplyEnd::Failed { kind, message } => ReplyEndView::Failed {
                kind: *kind,
                message: message@,
            },
            ReplyEnd::Closed => ReplyEndView::Closed,
        }
    }
}

/// The text of a reply: its deltas up to the terminal event.
pub open spec fn reply_text(es: Seq<CoreEventView>) -> Seq<char>
    decreases es.len(),
{
    if es.len() == 0 || crate::events::is_terminal(es[0]) {
        seq![]
    } else {
        match es[0] {
            CoreEventView::Delta { text } => text + reply_text(es.skip(1)),
            _ => reply_text(es.skip(1)),
        }
    }
}

/// How a reply ends: with its first terminal event.
pub open spec fn reply_end(es: Seq<CoreEventView>) -> ReplyEndView
    decreases es.len(),
{
    if es.len() == 0 {
        ReplyEndView::Closed
    } else {
        match es[0] {
            CoreEventView::TurnDone { usage } => ReplyEndView::Done(usage),
            CoreEventView::Error { kind, message } => ReplyEndView::Failed {
                kind: kind,
                message: message,
            },
            _ => reply_end(es.skip(1)),
        }
    }
}

/// The text of a reply and how it ended.
pub fn read_reply(events: &Vec<CoreEvent>) -> (r: (String, ReplyEnd))
    ensures
        r.0@ == reply_text(crate::events::event_views(events@)),
        r.1@ == reply_end(crate::events::event_views(events@)),
{
    let ghost all = crate::events::event_views(events@);
    let mut text = String::new();
    let mut i: usize = 0;
    assert(all.skip(0) =~= all);
    assert(text@ + reply_text(all) =~= reply_text(all));
    while i < events.len()
        invariant
            i <= events.len(),
            all == crate::events::event_views(events@),
            text@ + reply_text(all.skip(i as int)) == reply_text(all),
            reply_end(all.skip(i as int)) == reply_end(all),
        decreases events.len() - i,
    {
        let ghost rest = all.skip(i as int);
        assert(rest[0] == events@[i as int]@);
        assert(rest.skip(1) =~= all.skip(i + 1));
        let ghost before = text@;
        match &events[i] {
            CoreEvent::Delta { text: more } => {
                text.append(more.as_str());
                assert(before + (more@ + reply_text(rest.skip(1))) =~= text@ + reply_text(
                    rest.skip(1),
                ));
            },
            CoreEvent::TurnDone { usage } => {
                assert(text@ + seq![] =~= text@);
                return (text, ReplyEnd::Done(*usage));
            },
            CoreEvent::Error { kind, message } => {
                assert(text@ + seq![] =~= text@);
                return (text, ReplyEnd::Failed { kind: *kind, message: message.clone() });
            },
            _ => {},
        }
        i = i + 1;
    }
    assert(text@ + seq![] =~= text@);
    (text, ReplyEnd::Closed)
}

} // verus!
