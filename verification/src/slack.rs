//! What is sent to Slack.

use vstd::prelude::*;
use crate::messages::SHOWCASE_CHANNEL;
use crate::session::ThreadPost;
use crate::text::{lemma_trimmed_is_bare, trim, trimmed, white_space};

verus! {

/// A message to post.
pub struct PostRequest {
    /// The channel to post in.
    pub channel: String,
    /// The message.
    pub text: String,
    /// The thread to answer in; without one the message stands in the channel itself.
    pub thread_ts: Option<String>,
}

/// What a `PostRequest` says.
pub struct Posting {
    pub channel: Seq<char>,
    pub text: Seq<char>,
    pub thread_ts: Option<Seq<char>>,
}

impl View for PostRequest {
    type V = Posting;

    open spec fn view(&self) -> Posting {
        Posting {
            channel: self.channel@,
            text: self.text@,
            thread_ts: match self.thread_ts {
                Some(ts) => Some(ts@),
                None => None,
            },
        }
    }
}

/// A message in a channel itself.
pub open spec fn channel_message(channel: Seq<char>, text: Seq<char>) -> Posting {
    Posting { channel, text, thread_ts: None }
}

/// A message in the thread of the showcase, if one is set, and else in the channel itself.
pub open spec fn thread_message(
    channel: Seq<char>,
    text: Seq<char>,
    target_thread_ts: Seq<char>,
) -> Posting {
    Posting {
        channel,
        text,
        thread_ts: if target_thread_ts.len() == 0 {
            None
        } else {
            Some(target_thread_ts)
        },
    }
}

/// Makes a message for a channel itself.
pub fn send_slack_message(channel: &str, text: String) -> (request: PostRequest)
    ensures
        request@ == channel_message(channel@, text@),
{
    PostRequest { channel: channel.to_owned(), text, thread_ts: None }
}

/// Makes a message for the thread of the showcase; an empty `target_thread_ts` means that no
/// thread is set.
pub fn post_to_master_thread(post: ThreadPost, target_thread_ts: String) -> (request: PostRequest)
    ensures
        request@ == thread_message(post.channel@, post.text@, target_thread_ts@),
{
    if target_thread_ts.as_str().is_empty() {
        PostRequest { channel: post.channel, text: post.text, thread_ts: None }
    } else {
        PostRequest { channel: post.channel, text: post.text, thread_ts: Some(target_thread_ts) }
    }
}

/// What is relayed of a text: the text without the white space around it, unless that is empty.
pub open spec fn relayed(raw: Seq<char>) -> Option<Posting> {
    if trimmed(raw).len() == 0 {
        None
    } else {
        Some(channel_message(SHOWCASE_CHANNEL@, trimmed(raw)))
    }
}

/// Makes the message that relays a text to the channel of the showcase, if there is anything to
/// relay.
pub fn relay(raw: &str) -> (request: Option<PostRequest>)
    ensures
        request is Some <==> relayed(raw@) is Some,
        request matches Some(r) ==> relayed(raw@) == Some(r@),
{
    let text = trim(raw);
    if text.is_empty() {
        None
    } else {
        Some(send_slack_message(SHOWCASE_CHANNEL, text.to_owned()))
    }
}

/// Where a relayed text comes from.
pub enum RelaySource {
    /// A line typed at the terminal.
    Terminal,
    /// The file of messages.
    MessageFile,
}

/// What is left to do once a relayed text was sent, or could not be.
pub enum AfterRelay {
    /// Nothing.
    Done,
    /// The file of messages is emptied, so that the message is not sent again.
    EmptyFile,
    /// The failure is reported with this text ahead of it.
    Report(&'static str),
}

/// Decides what is left to do once a relayed text was sent, or could not be. A message in the file
/// stays there until it was sent.
pub fn after_relay(source: RelaySource, sent: bool) -> (next: AfterRelay)
    ensures
        match source {
            RelaySource::Terminal => if sent {
                next is Done
            } else {
                next matches AfterRelay::Report(t) && t@ == "Error sending message from stdin: "@
            },
            RelaySource::MessageFile => if sent {
                next is EmptyFile
            } else {
                next matches AfterRelay::Report(t) && t@ == "Error sending message from msg.txt: "@
            },
        },
{
    match source {
        RelaySource::Terminal => if sent {
            AfterRelay::Done
        } else {
            AfterRelay::Report("Error sending message from stdin: ")
        },
        RelaySource::MessageFile => if sent {
            AfterRelay::EmptyFile
        } else {
            AfterRelay::Report("Error sending message from msg.txt: ")
        },
    }
}

/// A message is seen as it is: its channel, its text, and its thread if it has one.
pub proof fn lemma_request_is_seen_whole(r: PostRequest)
    ensures
        r@.channel == r.channel@,
        r@.text == r.text@,
        r.thread_ts is None <==> r@.thread_ts is None,
        r.thread_ts matches Some(ts) ==> r@.thread_ts == Some(ts@),
{
}

/// Whatever is posted keeps its channel and its text, and it goes to a thread exactly if one is set
/// and it is meant for one.
pub proof fn lemma_messages_arrive_unchanged(
    channel: Seq<char>,
    text: Seq<char>,
    target_thread_ts: Seq<char>,
)
    ensures
        channel_message(channel, text).channel == channel,
        channel_message(channel, text).text == text,
        channel_message(channel, text).thread_ts is None,
        thread_message(channel, text, target_thread_ts).channel == channel,
        thread_message(channel, text, target_thread_ts).text == text,
        thread_message(channel, text, target_thread_ts).thread_ts == (if target_thread_ts.len()
            > 0 {
            Some(target_thread_ts)
        } else {
            None
        }),
{
}

/// A text is relayed exactly if it holds more than white space: to the channel of the showcase,
/// from its first to its last character that is not white space.
pub proof fn lemma_relayed_exactly(raw: Seq<char>)
    ensures
        relayed(raw) is None <==> forall|i: int|
            0 <= i < raw.len() ==> white_space(#[trigger] raw[i]),
        relayed(raw) matches Some(post) ==> {
            &&& post.channel == SHOWCASE_CHANNEL@
            &&& post.thread_ts is None
            &&& post.text.len() > 0
            &&& !white_space(post.text.first())
            &&& !white_space(post.text.last())
            &&& exists|from: int, to: int|
                0 <= from <= to <= raw.len() && post.text == #[trigger] raw.subrange(from, to) && (
                forall|i: int|
                    0 <= i < from || to <= i < raw.len() ==> white_space(#[trigger] raw[i]))
        },
{
    lemma_trimmed_is_bare(raw);
    let t = trimmed(raw);
    let (from, to) = choose|from: int, to: int|
        0 <= from <= to <= raw.len() && t == #[trigger] raw.subrange(from, to) && (forall|i: int|
            0 <= i < from || to <= i < raw.len() ==> white_space(#[trigger] raw[i]));
    if t.len() > 0 {
        assert(raw[from] == t[0]);
    }
}

} // verus!
