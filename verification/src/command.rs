//! Parsing an inbound chat message into a command: the `c4!` prefix, the
//! command word, and the challenge target. The parser works on the message's
//! already-extracted plain parts: its text, whether a bot wrote it, the
//! author, the room it was sent in, and the users it mentions.

use vstd::prelude::*;

verus! {

/// Ways a message may fail to be parsed as a valid command.
#[derive(Debug, PartialEq, Clone)]
pub enum ParseCommandError {
    /// This message does not have the bot's prefix.
    NoPrefix,
    /// The author of this message is a bot.
    BotAuthor,
    /// The target of this command could not be found or was not specified.
    InvalidTargetUser,
    /// This command doesn't exist or is malformed.
    InvalidCommand(String),
}

/// A command sent by a user.
#[derive(Debug, Clone, Copy, PartialEq, Eq, Structural)]
pub enum Command {
    Challenge { channel: u64, challenger: u64, opponent: u64 },
}

/// The room a command was issued in.
pub open spec fn command_room(c: Command) -> u64 {
    match c {
        Command::Challenge { channel, .. } => channel,
    }
}

/// The characters `split_ascii_whitespace` separates tokens on.
pub open spec fn is_ascii_ws(c: char) -> bool {
    c == ' ' || c == '\t' || c == '\n' || c == '\r' || c == '\u{c}'
}

/// The message starts with the bot's `c4!` prefix.
pub open spec fn has_prefix(s: Seq<char>) -> bool {
    s.len() >= 3 && s[0] == 'c' && s[1] == '4' && s[2] == '!'
}

/// The leading run of non-whitespace characters of `s`.
pub open spec fn leading_word(s: Seq<char>) -> Seq<char>
    decreases s.len(),
{
    if s.len() == 0 || is_ascii_ws(s[0]) {
        Seq::empty()
    } else {
        seq![s[0]] + leading_word(s.skip(1))
    }
}

/// The first whitespace-separated token of `s`; empty when `s` holds none.
pub open spec fn first_token(s: Seq<char>) -> Seq<char>
    decreases s.len(),
{
    if s.len() == 0 {
        Seq::empty()
    } else if is_ascii_ws(s[0]) {
        first_token(s.skip(1))
    } else {
        leading_word(s)
    }
}

/// The one command word the bot knows.
pub open spec fn challenge_token() -> Seq<char> {
    seq!['c', 'h', 'a', 'l', 'l', 'e', 'n', 'g', 'e']
}

/// Whether `tok` is exactly the word `challenge`.
fn is_challenge_word(tok: &str) -> (b: bool)
    ensures
        b == (tok@ == challenge_token()),
{
    if tok.unicode_len() != 9 {
        proof {
            assert(tok@ != challenge_token());
        }
        return false;
    }
    let ok = tok.get_char(0) == 'c' && tok.get_char(1) == 'h' && tok.get_char(2) == 'a'
        && tok.get_char(3) == 'l' && tok.get_char(4) == 'l' && tok.get_char(5) == 'e'
        && tok.get_char(6) == 'n' && tok.get_char(7) == 'g' && tok.get_char(8) == 'e';
    proof {
        if ok {
            assert(tok@ =~= challenge_token());
        }
    }
    ok
}

/// Whether `c` is one of the characters tokens are separated on.
fn is_ws_char(c: char) -> (b: bool)
    ensures
        b == is_ascii_ws(c),
{
    c == ' ' || c == '\t' || c == '\n' || c == '\r' || c == '\u{c}'
}

/// Parses a message into a command. The message must carry the `c4!` prefix
/// and must not come from a bot; its first word after the prefix selects the
/// command. `challenge` challenges the first mentioned user; any other word
/// is unknown and is handed back in the error.
pub fn parse_command(
    content: &str,
    author_bot: bool,
    author: u64,
    channel: u64,
    mentions: &Vec<u64>,
) -> (r: Result<Command, ParseCommandError>)
    ensures
        ({
            let rest = content@.skip(3);
            match r {
                Ok(cmd) => has_prefix(content@) && !author_bot && first_token(rest)
                    == challenge_token() && mentions@.len() > 0 && cmd == (Command::Challenge {
                    channel,
                    challenger: author,
                    opponent: mentions@[0],
                }),
                Err(ParseCommandError::NoPrefix) => !has_prefix(content@),
                Err(ParseCommandError::BotAuthor) => has_prefix(content@) && author_bot,
                Err(ParseCommandError::InvalidTargetUser) => has_prefix(content@) && !author_bot
                    && first_token(rest) == challenge_token() && mentions@.len() == 0,
                Err(ParseCommandError::InvalidCommand(t)) => has_prefix(content@) && !author_bot
                    && first_token(rest) != challenge_token() && t@ == first_token(rest),
            }
        }),
{
    let n = content.unicode_len();
    if n < 3 || content.get_char(0) != 'c' || content.get_char(1) != '4' || content.get_char(2)
        != '!' {
        return Err(ParseCommandError::NoPrefix);
    }
    if author_bot {
        return Err(ParseCommandError::BotAuthor);
    }

    let mut i: usize = 3;
    while i < n && is_ws_char(content.get_char(i))
        invariant
            3 <= i <= n,
            n == content@.len(),
            first_token(content@.skip(3)) == first_token(content@.skip(i as int)),
        decreases n - i,
    {
        proof {
            assert(content@.skip(i as int).skip(1) =~= content@.skip(i as int + 1));
        }
        i += 1;
    }

    let start = i;
    while i < n && !is_ws_char(content.get_char(i))
        invariant
            3 <= start <= i <= n,
            n == content@.len(),
            first_token(content@.skip(3)) == first_token(content@.skip(start as int)),
            start < n ==> !is_ascii_ws(content@[start as int]),
            leading_word(content@.skip(start as int)) =~= content@.subrange(
                start as int,
                i as int,
            ) + leading_word(content@.skip(i as int)),
        decreases n - i,
    {
        proof {
            assert(content@.skip(i as int).skip(1) =~= content@.skip(i as int + 1));
            assert(content@.subrange(start as int, i as int) + seq![content@[i as int]]
                =~= content@.subrange(start as int, i as int + 1));
        }
        i += 1;
    }
    proof {
        assert(leading_word(content@.skip(i as int)) =~= Seq::<char>::empty());
        assert(first_token(content@.skip(3)) =~= content@.subrange(start as int, i as int));
    }

    let token = content.substring_char(start, i);

    if is_challenge_word(token) {
        if mentions.len() == 0 {
            Err(ParseCommandError::InvalidTargetUser)
        } else {
            Ok(Command::Challenge { channel, challenger: author, opponent: mentions[0] })
        }
    } else {
        Err(ParseCommandError::InvalidCommand(token.to_owned()))
    }
}

} // verus!
