use vstd::prelude::*;

use crate::cache::{after_get, expiry_at, lookup, now_millis, opt_chars, ExpiringCache, Stored};
use crate::decimal::{parse_u128, parse_u128_spec};
use crate::frame::{
    chars_eq, chars_of, decode_spec, decode_tokens, split_request, to_upper, upper_of, views,
    frame_tokens, Command, DecodeError,
};

verus! {

/// A simple-string reply: `+`, the text, CR LF.
pub open spec fn simple_string(s: Seq<char>) -> Seq<char> {
    "+"@ + s + "\r\n"@
}

/// The null bulk string, the reply for "no value".
pub open spec fn null_reply() -> Seq<char> {
    "$-1\r\n"@
}

/// What `Debug` prints for a list of texts.
pub uninterp spec fn debug_text(items: Seq<Seq<char>>) -> Seq<char>;

/// Relies on the `Debug` impl of `Vec<String>`: the printed list depends on
/// the texts alone.
#[verifier::external_body]
fn debug_list(items: &Vec<String>) -> (r: String)
    ensures
        r@ == debug_text(views(items@)),
{
    format!("{:?}", items)
}

/// The reply to a command given the wrong number of arguments.
pub open spec fn wrong_args(name: Seq<char>, args: Seq<Seq<char>>) -> Seq<char> {
    "+Wrong number of args for "@ + name + " command: "@ + debug_text(args) + "!\r\n"@
}

/// The reply to ECHO. Arguments stand at odd offsets, each after its length
/// token, so one argument makes a list of two tokens.
pub open spec fn echo_reply(args: Seq<Seq<char>>) -> Seq<char> {
    if args.len() != 2 {
        wrong_args("ECHO"@, args)
    } else {
        simple_string(args[1])
    }
}

/// The reply to GET on mapping `m` at instant `now`.
pub open spec fn get_reply(args: Seq<Seq<char>>, m: Map<Seq<char>, Stored>, now: u128) -> Seq<char> {
    if args.len() != 2 {
        wrong_args("GET"@, args)
    } else {
        match lookup(m, args[1], now) {
            Some(v) => simple_string(v),
            None => null_reply(),
        }
    }
}

/// The mapping after GET.
pub open spec fn get_effect(args: Seq<Seq<char>>, m: Map<Seq<char>, Stored>, now: u128) -> Map<
    Seq<char>,
    Stored,
> {
    if args.len() != 2 {
        m
    } else {
        after_get(m, args[1], now)
    }
}

/// What SET's arguments ask for: the relative expiry to store with, or the
/// reply that rejects them. Key and value stand at offsets 1 and 3, an option
/// name at 5 and its number at 7.
pub open spec fn set_plan(args: Seq<Seq<char>>) -> Result<Option<u128>, Seq<char>> {
    if args.len() < 4 {
        Err(wrong_args("SET"@, args))
    } else if args.len() <= 5 {
        Ok(None)
    } else if upper_of(args[5]) != seq!['P', 'X'] {
        Err("+Unsupported option: "@ + upper_of(args[5]) + " for SET request!\r\n"@)
    } else if args.len() <= 7 {
        Err("+Couldn't find PX value in SET request!\r\n"@)
    } else {
        match parse_u128_spec(args[7]) {
            Some(ms) => Ok(Some(ms)),
            None => Err("+Invalid PX value: "@ + args[7] + " for SET request!\r\n"@),
        }
    }
}

/// The reply to SET.
pub open spec fn set_reply(args: Seq<Seq<char>>) -> Seq<char> {
    match set_plan(args) {
        Ok(_) => "+OK\r\n"@,
        Err(r) => r,
    }
}

/// The mapping after SET at instant `now`.
pub open spec fn set_effect(args: Seq<Seq<char>>, m: Map<Seq<char>, Stored>, now: u128) -> Map<
    Seq<char>,
    Stored,
> {
    match set_plan(args) {
        Ok(ms) => m.insert(args[1], (args[3], expiry_at(ms, now))),
        Err(_) => m,
    }
}

/// The reply to a decoded command, given the tokens after the command name.
pub open spec fn command_reply(
    cmd: Command,
    args: Seq<Seq<char>>,
    m: Map<Seq<char>, Stored>,
    now: u128,
) -> Seq<char> {
    match cmd {
        Command::Ping => "+PONG\r\n"@,
        Command::Echo => echo_reply(args),
        Command::Get => get_reply(args, m, now),
        Command::SetKey => set_reply(args),
    }
}

/// The mapping after a decoded command.
pub open spec fn command_effect(
    cmd: Command,
    args: Seq<Seq<char>>,
    m: Map<Seq<char>, Stored>,
    now: u128,
) -> Map<Seq<char>, Stored> {
    match cmd {
        Command::Get => get_effect(args, m, now),
        Command::SetKey => set_effect(args, m, now),
        _ => m,
    }
}

/// The reply to a frame that cannot be decoded.
pub open spec fn decode_error_reply(e: DecodeError) -> Seq<char> {
    match e {
        DecodeError::Empty => "+Empty request!\r\n"@,
        DecodeError::BadArrayHeader => "+Request is not a valid RESP array!\r\n"@,
        DecodeError::MissingCommand => "+Unable to find a command in RESP array!\r\n"@,
        DecodeError::UnknownCommand => "+Unknown command!\r\n"@,
    }
}

/// The reply to a request frame.
pub open spec fn request_reply(s: Seq<char>, m: Map<Seq<char>, Stored>, now: u128) -> Seq<char> {
    let toks = frame_tokens(s);
    match decode_spec(toks) {
        Ok(c) => command_reply(c, toks.skip(3), m, now),
        Err(e) => decode_error_reply(e),
    }
}

/// The mapping after a request frame.
pub open spec fn request_effect(s: Seq<char>, m: Map<Seq<char>, Stored>, now: u128) -> Map<
    Seq<char>,
    Stored,
> {
    let toks = frame_tokens(s);
    match decode_spec(toks) {
        Ok(c) => command_effect(c, toks.skip(3), m, now),
        Err(_) => m,
    }
}

fn simple(s: &str) -> (r: String)
    ensures
        r@ == simple_string(s@),
{
    let mut r = String::from_str("+");
    r.append(s);
    r.append("\r\n");
    r
}

fn wrong_args_reply(name: &str, args: &Vec<String>) -> (r: String)
    ensures
        r@ == wrong_args(name@, views(args@)),
{
    let mut r = String::from_str("+Wrong number of args for ");
    r.append(name);
    r.append(" command: ");
    let d = debug_list(args);
    r.append(d.as_str());
    r.append("!\r\n");
    r
}

/// A server's listening address.
pub struct RedisServer {
    pub ip_addr: String,
    pub port_num: u16,
}

impl RedisServer {
    /// Reads `key` at instant `now`; a dead entry is dropped and gives nothing.
    pub fn get_key(cache: &mut ExpiringCache, key: &String, now: u128) -> (r: Option<String>)
        requires
            old(cache).wf(),
        ensures
            final(cache).wf(),
            opt_chars(r) == lookup(old(cache)@, key@, now),
            final(cache)@ == after_get(old(cache)@, key@, now),
    {
        cache.get_at(key, now)
    }

    /// Stores `val` under `key` at instant `now`, with a relative expiry if given.
    pub fn add_key(
        cache: &mut ExpiringCache,
        key: String,
        val: String,
        expiry_ms: Option<u128>,
        now: u128,
    )
        requires
            old(cache).wf(),
        ensures
            final(cache).wf(),
            final(cache)@ == old(cache)@.insert(key@, (val@, expiry_at(expiry_ms, now))),
    {
        cache.set_at(key, val, expiry_ms, now)
    }

    /// The reply to PING.
    pub fn handle_ping_cmd() -> (r: String)
        ensures
            r@ == "+PONG\r\n"@,
    {
        String::from_str("+PONG\r\n")
    }

    /// The reply to ECHO with the tokens after the command name.
    pub fn handle_echo_cmd(echo_data: &Vec<String>) -> (r: String)
        ensures
            r@ == echo_reply(views(echo_data@)),
    {
        if echo_data.len() != 2 {
            return wrong_args_reply("ECHO", echo_data);
        }
        simple(echo_data[1].as_str())
    }

    /// Runs GET with the tokens after the command name, at instant `now`.
    pub fn handle_get_cmd(get_data: &Vec<String>, cache: &mut ExpiringCache, now: u128) -> (r:
        String)
        requires
            old(cache).wf(),
        ensures
            final(cache).wf(),
            r@ == get_reply(views(get_data@), old(cache)@, now),
            final(cache)@ == get_effect(views(get_data@), old(cache)@, now),
    {
        if get_data.len() != 2 {
            return wrong_args_reply("GET", get_data);
        }
        match Self::get_key(cache, &get_data[1], now) {
            Some(v) => simple(v.as_str()),
            None => String::from_str("$-1\r\n"),
        }
    }

    /// Runs SET with the tokens after the command name, at instant `now`.
    pub fn handle_set_cmd(set_data: &Vec<String>, cache: &mut ExpiringCache, now: u128) -> (r:
        String)
        requires
            old(cache).wf(),
        ensures
            final(cache).wf(),
            r@ == set_reply(views(set_data@)),
            final(cache)@ == set_effect(views(set_data@), old(cache)@, now),
    {
        let ghost a = views(set_data@);
        if set_data.len() < 4 {
            return wrong_args_reply("SET", set_data);
        }
        let mut expiry: Option<u128> = None;
        if set_data.len() > 5 {
            let opt = to_upper(set_data[5].as_str());
            let oc = chars_of(opt.as_str());
            if !chars_eq(&oc, &vec!['P', 'X']) {
                let mut r = String::from_str("+Unsupported option: ");
                r.append(opt.as_str());
                r.append(" for SET request!\r\n");
                return r;
            }
            if set_data.len() <= 7 {
                return String::from_str("+Couldn't find PX value in SET request!\r\n");
            }
            let pc = chars_of(set_data[7].as_str());
            assert(pc@.subrange(0, pc@.len() as int) =~= pc@);
            match parse_u128(&pc, 0, pc.len()) {
                Some(ms) => {
                    expiry = Some(ms);
                },
                None => {
                    let mut r = String::from_str("+Invalid PX value: ");
                    r.append(set_data[7].as_str());
                    r.append(" for SET request!\r\n");
                    return r;
                },
            }
        }
        assert(set_plan(a) == Ok::<Option<u128>, Seq<char>>(expiry));
        Self::add_key(cache, set_data[1].clone(), set_data[3].clone(), expiry, now);
        String::from_str("+OK\r\n")
    }

    /// Runs a decoded command on the frame's tokens, at instant `now`.
    pub fn handle_cmd(
        redis_cmd: Command,
        tokens: &Vec<String>,
        cache: &mut ExpiringCache,
        now: u128,
    ) -> (r: String)
        requires
            old(cache).wf(),
            tokens@.len() >= 3,
        ensures
            final(cache).wf(),
            r@ == command_reply(redis_cmd, views(tokens@).skip(3), old(cache)@, now),
            final(cache)@ == command_effect(redis_cmd, views(tokens@).skip(3), old(cache)@, now),
    {
        let mut args: Vec<String> = Vec::new();
        let mut i: usize = 3;
        while i < tokens.len()
            invariant
                3 <= i <= tokens@.len(),
                views(args@) == views(tokens@).subrange(3, i as int),
            decreases tokens@.len() - i,
        {
            let t = tokens[i].clone();
            proof {
                assert(t@ == views(tokens@)[i as int]);
                assert(views(args@.push(t)) =~= views(args@).push(t@));
                assert(views(args@.push(t)) =~= views(tokens@).subrange(3, i + 1));
            }
            args.push(t);
            i = i + 1;
        }
        assert(views(args@) =~= views(tokens@).skip(3));
        match redis_cmd {
            Command::Ping => Self::handle_ping_cmd(),
            Command::Echo => Self::handle_echo_cmd(&args),
            Command::Get => Self::handle_get_cmd(&args, cache, now),
            Command::SetKey => Self::handle_set_cmd(&args, cache, now),
        }
    }

    /// Decodes a request frame into its command.
    pub fn decode_request(request: &str) -> (r: Result<Command, DecodeError>)
        ensures
            r == decode_spec(frame_tokens(request@)),
    {
        let toks = split_request(request);
        decode_tokens(&toks)
    }

    /// Answers one request frame at instant `now`: decodes it, runs the
    /// command on the store, and returns the reply.
    pub fn handle_request_at(cache: &mut ExpiringCache, request: &str, now: u128) -> (r: String)
        requires
            old(cache).wf(),
        ensures
            final(cache).wf(),
            r@ == request_reply(request@, old(cache)@, now),
            final(cache)@ == request_effect(request@, old(cache)@, now),
    {
        let toks = split_request(request);
        match decode_tokens(&toks) {
            Ok(c) => Self::handle_cmd(c, &toks, cache, now),
            Err(e) => e.message(),
        }
    }

    /// Answers one request frame at the current time.
    pub fn handle_request(cache: &mut ExpiringCache, request: &str) -> (r: String)
        requires
            old(cache).wf(),
        ensures
            final(cache).wf(),
            exists|now: u128|
                r@ == request_reply(request@, old(cache)@, now) && final(cache)@
                    == request_effect(request@, old(cache)@, now),
    {
        let now = now_millis();
        Self::handle_request_at(cache, request, now)
    }
}

impl DecodeError {
    /// The reply text for this error.
    pub fn message(&self) -> (r: String)
        ensures
            r@ == decode_error_reply(*self),
    {
        match self {
            DecodeError::Empty => String::from_str("+Empty request!\r\n"),
            DecodeError::BadArrayHeader => String::from_str(
                "+Request is not a valid RESP array!\r\n",
            ),
            DecodeError::MissingCommand => String::from_str(
                "+Unable to find a command in RESP array!\r\n",
            ),
            DecodeError::UnknownCommand => String::from_str("+Unknown command!\r\n"),
        }
    }
}

} // verus!
