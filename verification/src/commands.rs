//! The commands that a subscriber can send to the bot.

use vstd::prelude::*;
use vstd::slice::slice_subrange;
use crate::text::{equals_str, to_chars, trim_range, trimmed};

verus! {

/// What a subscriber asks of the bot.
#[derive(Debug, Clone, Copy, PartialEq, Eq, Structural)]
pub enum BotCommand {
    /// `/start`: say hello and list the commands.
    Start,
    /// `/start_receive`: subscribe.
    Subscribe,
    /// `/stop_receive`: unsubscribe.
    Unsubscribe,
    /// Anything else: no answer.
    Ignored,
}

/// `k` is where the head of `s` ends: at the first `sep`, or at the end of
/// `s` if it holds none.
pub open spec fn is_head_end(s: Seq<char>, sep: char, k: int) -> bool {
    &&& 0 <= k <= s.len()
    &&& forall|i: int| 0 <= i < k ==> #[trigger] s[i] != sep
    &&& k < s.len() ==> s[k] == sep
}

/// The part of `s` before its first `sep`; all of `s` if it holds none.
pub open spec fn head(s: Seq<char>, sep: char) -> Seq<char> {
    s.take(choose|k: int| is_head_end(s, sep, k))
}

/// The word of a message that names its command: the message trimmed, cut
/// before a bot name that follows an `@`, and trimmed again.
pub open spec fn command_word(raw: Seq<char>) -> Seq<char> {
    trimmed(head(trimmed(raw), '@'))
}

/// The command that a command word names.
pub open spec fn command_named(word: Seq<char>) -> BotCommand {
    if word == "/start"@ {
        BotCommand::Start
    } else if word == "/start_receive"@ {
        BotCommand::Subscribe
    } else if word == "/stop_receive"@ {
        BotCommand::Unsubscribe
    } else {
        BotCommand::Ignored
    }
}

/// Where the head of `s` ends.
pub fn head_end(s: &[char], sep: char) -> (k: usize)
    ensures
        is_head_end(s@, sep, k as int),
        s@.take(k as int) == head(s@, sep),
{
    let mut k: usize = 0;
    while k < s.len() && s[k] != sep
        invariant
            k <= s.len(),
            forall|i: int| 0 <= i < k ==> #[trigger] s@[i] != sep,
        decreases s.len() - k,
    {
        k += 1;
    }
    proof {
        assert(is_head_end(s@, sep, k as int));
    }
    k
}

impl BotCommand {
    /// The command of a message.
    pub fn parse(raw: &str) -> (cmd: BotCommand)
        ensures
            cmd == command_named(command_word(raw@)),
    {
        let chars = to_chars(raw);
        let (a, b) = trim_range(chars.as_slice());
        let body = slice_subrange(chars.as_slice(), a, b);
        let k = head_end(body, '@');
        let first = slice_subrange(body, 0, k);
        let (c, d) = trim_range(first);
        let word = slice_subrange(first, c, d);
        if equals_str(word, "/start") {
            BotCommand::Start
        } else if equals_str(word, "/start_receive") {
            BotCommand::Subscribe
        } else if equals_str(word, "/stop_receive") {
            BotCommand::Unsubscribe
        } else {
            BotCommand::Ignored
        }
    }
}

/// The update after which the bot asks next, given the one it has handled.
pub fn next_offset(update_id: i64) -> (offset: i64)
    ensures
        offset == if update_id < i64::MAX {
            update_id + 1
        } else {
            i64::MAX as int
        },
{
    if update_id < i64::MAX {
        update_id + 1
    } else {
        i64::MAX
    }
}

} // verus!
