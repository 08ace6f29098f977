//! The command vocabulary: recognizing the first whitespace-delimited token
//! after the command prefix, and the fixed reply texts.

use vstd::prelude::*;
use vstd::string::StrSliceExecFns;
use vstd::string::StringExecFns;
use crate::text::decimal_digits;
use crate::text::decimal_string;

verus! {

/// The closed set of recognized commands.
#[derive(Clone, Copy, PartialEq, Eq, Structural, Debug)]
pub enum Command {
    /// Display the command list.
    Help,
    /// Ping the responder.
    Ping,
    /// Draw one advice template.
    Advice,
    /// Retired; kept only to announce its replacement.
    Fortune,
}

/// Whitespace for the purpose of token extraction.
pub open spec fn is_ws(c: char) -> bool {
    c == ' ' || c == '\t' || c == '\n' || c == '\r'
}

/// `s` with its leading whitespace removed.
pub open spec fn skip_ws(s: Seq<char>) -> Seq<char>
    decreases s.len(),
{
    if s.len() > 0 && is_ws(s[0]) {
        skip_ws(s.skip(1))
    } else {
        s
    }
}

/// The longest whitespace-free prefix of `s`.
pub open spec fn take_until_ws(s: Seq<char>) -> Seq<char>
    decreases s.len(),
{
    if s.len() > 0 && !is_ws(s[0]) {
        seq![s[0]] + take_until_ws(s.skip(1))
    } else {
        Seq::empty()
    }
}

/// The first whitespace-delimited token of `s`; empty when `s` holds none.
pub open spec fn first_token(s: Seq<char>) -> Seq<char> {
    take_until_ws(skip_ws(s))
}

/// The bounds of the first whitespace-delimited token of `s`.
pub fn first_token_span(s: &str) -> (span: (usize, usize))
    ensures
        span.0 <= span.1 <= s@.len(),
        s@.subrange(span.0 as int, span.1 as int) == first_token(s@),
{
    let n = s.unicode_len();
    let mut b: usize = 0;
    proof {
        assert(s@.skip(0) =~= s@);
    }
    while b < n
        invariant
            b <= n,
            n == s@.len(),
            skip_ws(s@) == skip_ws(s@.skip(b as int)),
        ensures
            b <= n,
            skip_ws(s@) == skip_ws(s@.skip(b as int)),
            b < n ==> !is_ws(s@[b as int]),
        decreases n - b,
    {
        let c = s.get_char(b);
        if !(c == ' ' || c == '\t' || c == '\n' || c == '\r') {
            break;
        }
        proof {
            assert(s@.skip(b as int).skip(1) =~= s@.skip(b + 1));
        }
        b = b + 1;
    }
    proof {
        if b == n {
            assert(s@.skip(b as int) =~= Seq::<char>::empty());
        }
        assert(skip_ws(s@) == s@.skip(b as int));
    }
    let mut e: usize = b;
    while e < n
        invariant
            b <= e <= n,
            n == s@.len(),
            take_until_ws(s@.skip(b as int)) == s@.subrange(b as int, e as int) + take_until_ws(
                s@.skip(e as int),
            ),
        ensures
            b <= e <= n,
            take_until_ws(s@.skip(b as int)) == s@.subrange(b as int, e as int) + take_until_ws(
                s@.skip(e as int),
            ),
            e < n ==> is_ws(s@[e as int]),
        decreases n - e,
    {
        let c = s.get_char(e);
        if c == ' ' || c == '\t' || c == '\n' || c == '\r' {
            break;
        }
        proof {
            assert(s@.skip(e as int)[0] == s@[e as int]);
            assert(s@.skip(e as int).skip(1) =~= s@.skip(e + 1));
            assert(s@.subrange(b as int, e as int) + seq![s@[e as int]] =~= s@.subrange(
                b as int,
                e + 1,
            ));
            assert((s@.subrange(b as int, e as int) + seq![s@[e as int]]) + take_until_ws(
                s@.skip(e + 1),
            ) =~= s@.subrange(b as int, e as int) + (seq![s@[e as int]] + take_until_ws(
                s@.skip(e + 1),
            )));
        }
        e = e + 1;
    }
    proof {
        if e == n {
            assert(s@.skip(e as int) =~= Seq::<char>::empty());
        }
        assert(take_until_ws(s@.skip(e as int)) =~= Seq::<char>::empty());
        assert(s@.subrange(b as int, e as int) + Seq::<char>::empty() =~= s@.subrange(
            b as int,
            e as int,
        ));
    }
    (b, e)
}

/// Whether `a` reads as the (lower-case) keyword character `k`, ignoring
/// ASCII case.
pub open spec fn char_matches_ci(a: char, k: char) -> bool {
    a == k || ('A' <= a <= 'Z' && a as u32 + 32 == k as u32)
}

/// Whether `s` reads as the keyword `k`, ignoring ASCII case.
pub open spec fn token_matches(s: Seq<char>, k: Seq<char>) -> bool {
    s.len() == k.len() && forall|i: int| 0 <= i < s.len() ==> char_matches_ci(s[i], k[i])
}

/// Case-insensitive comparison of `s` against a keyword.
fn matches_keyword(s: &str, k: &str) -> (r: bool)
    ensures
        r == token_matches(s@, k@),
{
    let sn = s.unicode_len();
    let kn = k.unicode_len();
    if sn != kn {
        return false;
    }
    let mut i: usize = 0;
    while i < sn
        invariant
            i <= sn,
            sn == s@.len(),
            kn == k@.len(),
            sn == kn,
            forall|j: int| 0 <= j < i ==> char_matches_ci(s@[j], k@[j]),
        decreases sn - i,
    {
        let a = s.get_char(i);
        let kc = k.get_char(i);
        let matched = a == kc || ('A' <= a && a <= 'Z' && (a as u32) + 32 == kc as u32);
        if !matched {
            return false;
        }
        i = i + 1;
    }
    true
}

/// Which command a token names, ignoring ASCII case.
pub open spec fn parse_spec(s: Seq<char>) -> Option<Command> {
    if token_matches(s, "help"@) {
        Some(Command::Help)
    } else if token_matches(s, "ping"@) {
        Some(Command::Ping)
    } else if token_matches(s, "advice"@) {
        Some(Command::Advice)
    } else if token_matches(s, "fortune"@) {
        Some(Command::Fortune)
    } else {
        None
    }
}

/// Parse a command token against the closed command vocabulary.
pub fn parse_command(token: &str) -> (c: Option<Command>)
    ensures
        c == parse_spec(token@),
{
    if matches_keyword(token, "help") {
        Some(Command::Help)
    } else if matches_keyword(token, "ping") {
        Some(Command::Ping)
    } else if matches_keyword(token, "advice") {
        Some(Command::Advice)
    } else if matches_keyword(token, "fortune") {
        Some(Command::Fortune)
    } else {
        None
    }
}

/// The help text: every command with its description.
pub open spec fn help_reply() -> Seq<char> {
    "!help: Display this message\n!ping: Ping the bot\n!advice: Get your fortune told\n!fortune: Replaced with !advice\n"@
}

/// Build the help reply.
pub fn help_text() -> (r: String)
    ensures
        r@ == help_reply(),
{
    String::from_str(
        "!help: Display this message\n!ping: Ping the bot\n!advice: Get your fortune told\n!fortune: Replaced with !advice\n",
    )
}

/// The pong acknowledgment.
pub open spec fn pong_reply() -> Seq<char> {
    "Pong!"@
}

/// Build the pong reply.
pub fn pong_text() -> (r: String)
    ensures
        r@ == pong_reply(),
{
    String::from_str("Pong!")
}

/// The deprecation notice for the retired command.
pub open spec fn fortune_reply() -> Seq<char> {
    "The !fortune command has been replaced with !advice."@
}

/// Build the deprecation reply.
pub fn fortune_text() -> (r: String)
    ensures
        r@ == fortune_reply(),
{
    String::from_str("The !fortune command has been replaced with !advice.")
}

/// The reply to an unrecognized command, naming the offending text.
pub open spec fn unknown_reply(rest: Seq<char>) -> Seq<char> {
    "Unknown command: "@ + rest
}

/// Build the unknown-command reply.
pub fn unknown_text(rest: &str) -> (r: String)
    ensures
        r@ == unknown_reply(rest@),
{
    let mut s = String::from_str("Unknown command: ");
    s.append(rest);
    s
}

/// The reply to a throttled draw, naming the remaining whole hours.
pub open spec fn throttle_reply(h: u64) -> Seq<char> {
    "You have already been given advice today. Try again in "@ + decimal_digits(h as nat)
        + " hours"@
}

/// Build the throttled-draw reply.
pub fn throttle_text(h: u64) -> (r: String)
    ensures
        r@ == throttle_reply(h),
{
    let mut s = String::from_str("You have already been given advice today. Try again in ");
    let d = decimal_string(h);
    s.append(d.as_str());
    s.append(" hours");
    s
}

} // verus!
