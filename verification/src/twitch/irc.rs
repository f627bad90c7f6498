//! One Twitch channel over IRC-over-WebSocket: the lines sent to log in and
//! join, and what is done with each line the server sends.
//!
//! IRC over WebSocket is kept rather than EventSub: it needs no
//! subscription or session management, and its tags carry everything the
//! reader needs (badges, colour, role).

use vstd::prelude::*;
use crate::text;
use crate::text::{chars_of, contains_chars, push_str_chars, split_str, string_from_chars, to_lowercase};
use crate::twitch::message::{
    is_ping, is_privmsg, message_matches, parse_raw_spec, ping_prefix, try_parse_privmsg, ChatMessage, RawLineModel,
};

verus! {

/// Address of Twitch's IRC-over-WebSocket endpoint.
pub const TWITCH_IRC_WS_URL: &'static str = "wss://irc-ws.chat.twitch.tv:443";

/// What a channel connection reports to the connection manager.
#[derive(Debug, Clone)]
pub enum ChannelEvent {
    Connected,
    Disconnected { reason: String },
    Message(ChatMessage),
    /// Server notice (e.g. `msg_channel_suspended`), shown for diagnosis.
    Notice(String),
}

/// Connection settings of one channel.
pub struct IrcChannelClient {
    channel_login: String,
    oauth_token: String,
    bot_login: String,
}

/// Capabilities requested so that messages carry their tags.
pub open spec fn cap_request() -> Seq<char> {
    "CAP REQ :twitch.tv/tags twitch.tv/commands twitch.tv/membership"@
}

/// The lines sent after the socket opens, in order: capabilities, token,
/// nickname, channel.
pub open spec fn handshake_spec(channel: Seq<char>, token: Seq<char>, bot: Seq<char>) -> Seq<Seq<char>> {
    seq![cap_request(), "PASS oauth:"@ + token, "NICK "@ + bot, "JOIN #"@ + channel]
}

/// Answer to a server `PING`.
pub open spec fn pong_line() -> Seq<char> {
    "PONG :tmi.twitch.tv"@
}

/// Reason reported when Twitch refuses the credentials.
pub open spec fn auth_refused_reason() -> Seq<char> {
    "Authentification refusée par Twitch"@
}

/// A notice telling that the login failed for good.
pub open spec fn is_auth_failure(line: Seq<char>) -> bool {
    text::contains_seq(line, "Login authentication failed"@) || text::contains_seq(
        line,
        "Improperly formatted auth"@,
    )
}

/// Twitch refuses credentials with a notice saying "Login authentication
/// failed" or "Improperly formatted auth": any line holding either phrase,
/// whatever surrounds it, is a refusal.
pub proof fn law_auth_refusal_phrases(before: Seq<char>, after: Seq<char>)
    ensures
        is_auth_failure(before + "Login authentication failed"@ + after),
        is_auth_failure(before + "Improperly formatted auth"@ + after),
{
    let a = "Login authentication failed"@;
    let b = "Improperly formatted auth"@;
    let la = before + a + after;
    let lb = before + b + after;
    assert(la.subrange(before.len() as int, (before.len() + a.len()) as int) =~= a);
    assert(text::occurs_at(la, a, before.len() as int));
    assert(lb.subrange(before.len() as int, (before.len() + b.len()) as int) =~= b);
    assert(text::occurs_at(lb, b, before.len() as int));
}

/// The parsed line, when it is a `PRIVMSG`.
pub open spec fn privmsg_of(line: Seq<char>) -> Option<RawLineModel> {
    match parse_raw_spec(line) {
        Some(raw) => if is_privmsg(raw) {
            Some(raw)
        } else {
            None
        },
        None => None,
    }
}

/// The non-empty lines of a list, in order.
pub open spec fn non_empty_lines(ls: Seq<Seq<char>>) -> Seq<Seq<char>>
    decreases ls.len(),
{
    if ls.len() == 0 {
        seq![]
    } else if ls.last().len() == 0 {
        non_empty_lines(ls.drop_last())
    } else {
        non_empty_lines(ls.drop_last()).push(ls.last())
    }
}

/// The IRC lines of a WebSocket text frame: the non-empty pieces between
/// `"\r\n"` separators.
pub open spec fn frame_lines_spec(frame: Seq<char>) -> Seq<Seq<char>> {
    non_empty_lines(text::split_on_seq(frame, "\r\n"@))
}

/// What to do with one line received from the server.
pub struct LineOutcome {
    /// Line to send back at once.
    pub reply: Option<String>,
    /// Events for the connection manager, in order.
    pub events: Vec<ChannelEvent>,
    /// The connection must be closed (credentials refused).
    pub stop: bool,
}

impl IrcChannelClient {
    /// Settings for `channel_login` (lower-cased), logging in as
    /// `bot_login` with `oauth_token`.
    pub fn new(channel_login: String, oauth_token: String, bot_login: String) -> (c: IrcChannelClient)
        ensures
            c.channel_login()@ == text::lowercase(channel_login@),
            c.oauth_token()@ == oauth_token@,
            c.bot_login()@ == bot_login@,
    {
        IrcChannelClient { channel_login: to_lowercase(channel_login.as_str()), oauth_token, bot_login }
    }

    pub closed spec fn channel_login(&self) -> String {
        self.channel_login
    }

    pub closed spec fn oauth_token(&self) -> String {
        self.oauth_token
    }

    pub closed spec fn bot_login(&self) -> String {
        self.bot_login
    }

    /// The joined channel, lower case.
    pub fn channel(&self) -> (s: &str)
        ensures
            s@ == self.channel_login()@,
    {
        self.channel_login.as_str()
    }

    /// The lines to send once the socket is open, in order.
    pub fn handshake_lines(&self) -> (v: Vec<String>)
        ensures
            text::strings_view(v@) == handshake_spec(
                self.channel_login()@,
                self.oauth_token()@,
                self.bot_login()@,
            ),
    {
        let mut v: Vec<String> = Vec::new();
        v.push("CAP REQ :twitch.tv/tags twitch.tv/commands twitch.tv/membership".to_owned());
        let mut pass = String::new();
        push_str_chars(&mut pass, "PASS oauth:");
        push_str_chars(&mut pass, self.oauth_token.as_str());
        v.push(pass);
        let mut nick = String::new();
        push_str_chars(&mut nick, "NICK ");
        push_str_chars(&mut nick, self.bot_login.as_str());
        v.push(nick);
        let mut join = String::new();
        push_str_chars(&mut join, "JOIN #");
        push_str_chars(&mut join, self.channel_login.as_str());
        v.push(join);
        proof {
            assert(text::strings_view(v@) =~= handshake_spec(
                self.channel_login()@,
                self.oauth_token()@,
                self.bot_login()@,
            ));
        }
        v
    }

    /// What to do with one line from the server: answer a `PING`, report a
    /// notice (and stop when it refuses the credentials), or report a chat
    /// message; anything else is ignored.
    pub fn handle_line(&self, line: &str) -> (o: LineOutcome)
        ensures
            text::starts_with(line@, ping_prefix()) ==> {
                &&& o.reply matches Some(r) && r@ == pong_line()
                &&& o.events@.len() == 0
                &&& !o.stop
            },
            !text::starts_with(line@, ping_prefix()) && text::contains_seq(line@, "NOTICE"@) ==> {
                &&& o.reply is None
                &&& o.stop == is_auth_failure(line@)
                &&& o.events@.len() == (if is_auth_failure(line@) { 2int } else { 1int })
                &&& o.events@[0] matches ChannelEvent::Notice(t) && t@ == line@
                &&& is_auth_failure(line@) ==> (o.events@[1] matches ChannelEvent::Disconnected {
                    reason,
                } && reason@ == auth_refused_reason())
            },
            !text::starts_with(line@, ping_prefix()) && text::contains_seq(line@, "NOTICE"@) ==> {
                &&& o.stop <==> (text::contains_seq(line@, "Login authentication failed"@)
                    || text::contains_seq(line@, "Improperly formatted auth"@))
                &&& o.stop ==> o.events@.len() == 2
                &&& o.stop ==> (o.events@[1] matches ChannelEvent::Disconnected { reason }
                    && reason@ == "Authentification refusée par Twitch"@)
            },
            !text::starts_with(line@, ping_prefix()) && !text::contains_seq(line@, "NOTICE"@) ==> {
                &&& o.reply is None
                &&& !o.stop
                &&& match privmsg_of(line@) {
                    Some(raw) => o.events@.len() == 1 && (o.events@[0] matches ChannelEvent::Message(m)
                        && message_matches(m, raw, self.channel_login()@)),
                    None => o.events@.len() == 0,
                }
            },
    {
        let mut events: Vec<ChannelEvent> = Vec::new();
        if is_ping(line) {
            return LineOutcome { reply: Some("PONG :tmi.twitch.tv".to_owned()), events, stop: false };
        }
        let cs = chars_of(line);
        let notice = chars_of("NOTICE");
        if contains_chars(cs.as_slice(), notice.as_slice()) {
            events.push(ChannelEvent::Notice(line.to_owned()));
            let failed_a = chars_of("Login authentication failed");
            let failed_b = chars_of("Improperly formatted auth");
            let auth_failed = contains_chars(cs.as_slice(), failed_a.as_slice()) || contains_chars(
                cs.as_slice(),
                failed_b.as_slice(),
            );
            if auth_failed {
                events.push(
                    ChannelEvent::Disconnected { reason: "Authentification refusée par Twitch".to_owned() },
                );
            }
            return LineOutcome { reply: None, events, stop: auth_failed };
        }
        match try_parse_privmsg(line, self.channel_login.as_str()) {
            Some(m) => {
                events.push(ChannelEvent::Message(m));
            },
            None => {},
        }
        LineOutcome { reply: None, events, stop: false }
    }
}

/// The IRC lines of a WebSocket text frame, in order.
pub fn frame_lines(frame: &str) -> (v: Vec<String>)
    ensures
        text::strings_view(v@) == frame_lines_spec(frame@),
{
    let cs = chars_of(frame);
    let sep = chars_of("\r\n");
    proof {
        reveal_strlit("\r\n");
    }
    let pieces = split_str(cs.as_slice(), sep.as_slice());
    let ghost pv = pieces@.map_values(|p: &[char]| p@);
    let mut v: Vec<String> = Vec::new();
    let mut i: usize = 0;
    while i < pieces.len()
        invariant
            i <= pieces@.len(),
            pv == pieces@.map_values(|p: &[char]| p@),
            text::strings_view(v@) == non_empty_lines(pv.subrange(0, i as int)),
        decreases pieces@.len() - i,
    {
        proof {
            assert(pv.subrange(0, i + 1).drop_last() =~= pv.subrange(0, i as int));
            assert(pv.subrange(0, i + 1).last() == pv[i as int]);
        }
        if pieces[i].len() > 0 {
            let ghost before = v@;
            v.push(string_from_chars(pieces[i]));
            assert(text::strings_view(v@) =~= text::strings_view(before).push(pv[i as int]));
        }
        i = i + 1;
    }
    assert(pv.subrange(0, pv.len() as int) =~= pv);
    v
}

/// Event reporting a WebSocket error, with the error's text.
pub fn socket_error_event(error_text: &str) -> (e: ChannelEvent)
    ensures
        e matches ChannelEvent::Disconnected { reason } && reason@ == "Erreur WebSocket : "@ + error_text@,
{
    let mut reason = String::new();
    push_str_chars(&mut reason, "Erreur WebSocket : ");
    push_str_chars(&mut reason, error_text);
    ChannelEvent::Disconnected { reason }
}

/// Event reporting that the server closed the stream.
pub fn stream_closed_event() -> (e: ChannelEvent)
    ensures
        e matches ChannelEvent::Disconnected { reason } && reason@ == "Flux WebSocket clos par le serveur"@,
{
    ChannelEvent::Disconnected { reason: "Flux WebSocket clos par le serveur".to_owned() }
}

} // verus!
