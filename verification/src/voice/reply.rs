//! How a reply reaches the user: a notification, speech, or both.
use crate::text::str_eq;
use vstd::prelude::*;

verus! {

#[derive(Debug, Clone, Copy, PartialEq, Eq, Structural)]
pub enum DeliverAction {
    Notification,
    Voice,
    Both,
}

/// The action that a reply mode asks for; any mode but `voice` and `both`
/// means a notification.
pub open spec fn plan_for(mode: Seq<char>) -> DeliverAction {
    if mode == seq!['v', 'o', 'i', 'c', 'e'] {
        DeliverAction::Voice
    } else if mode == seq!['b', 'o', 't', 'h'] {
        DeliverAction::Both
    } else {
        DeliverAction::Notification
    }
}

pub fn deliver_plan(reply_mode: &str) -> (res: DeliverAction)
    ensures
        res == plan_for(reply_mode@),
{
    proof {
        reveal_strlit("voice");
        reveal_strlit("both");
        assert("voice"@ =~= seq!['v', 'o', 'i', 'c', 'e']);
        assert("both"@ =~= seq!['b', 'o', 't', 'h']);
    }
    if str_eq(reply_mode, "voice") {
        DeliverAction::Voice
    } else if str_eq(reply_mode, "both") {
        DeliverAction::Both
    } else {
        DeliverAction::Notification
    }
}

/// Where the dialog loop sends what it has to say; the desktop shell
/// implements it with notifications and speech, tests with a recorder.
pub trait DialogSink {
    fn deliver(&self, reply_mode: &str, message: String);

    fn notify_error(&self, body: &str);

    fn tts_playing(&self) -> bool;
}

} // verus!
