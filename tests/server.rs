use redis_lite::cache::ExpiringCache;
use redis_lite::decimal::parse_u128;
use redis_lite::frame::{command_from_name, split_pieces, split_request, Command, DecodeError};
use redis_lite::line_protocol::reply_to_ping_lines;
use redis_lite::server::RedisServer;
use redis_lite::session::{frame_text, SessionError};

fn at(cache: &mut ExpiringCache, req: &str, now: u128) -> String {
    RedisServer::handle_request_at(cache, req, now)
}

fn chars(s: &str) -> Vec<char> {
    s.chars().collect()
}

#[test]
fn ping_returns_pong() {
    let mut c = ExpiringCache::new();
    assert_eq!(at(&mut c, "*1\r\n$4\r\nPING\r\n", 5), "+PONG\r\n");
    at(&mut c, "*3\r\n$3\r\nSET\r\n$1\r\nk\r\n$1\r\nv\r\n", 5);
    assert_eq!(at(&mut c, "*1\r\n$4\r\nping\r\n", 6), "+PONG\r\n");
}

#[test]
fn ping_at_current_time() {
    let mut c = ExpiringCache::new();
    assert_eq!(RedisServer::handle_request(&mut c, "*1\r\n$4\r\nPING\r\n"), "+PONG\r\n");
}

#[test]
fn echo_returns_text() {
    let mut c = ExpiringCache::new();
    assert_eq!(
        at(&mut c, "*2\r\n$4\r\necho\r\n$11\r\nHello World\r\n", 1),
        "+Hello World\r\n"
    );
}

#[test]
fn echo_without_argument() {
    let mut c = ExpiringCache::new();
    assert_eq!(
        at(&mut c, "*1\r\n$4\r\nECHO\r\n", 1),
        "+Wrong number of args for ECHO command: []!\r\n"
    );
    assert_eq!(
        at(&mut c, "*2\r\n$4\r\nECHO\r\n$1\r\n", 1),
        "+Wrong number of args for ECHO command: [\"$1\"]!\r\n"
    );
}

#[test]
fn get_of_unwritten_key() {
    let mut c = ExpiringCache::new();
    assert_eq!(at(&mut c, "*2\r\n$3\r\nGET\r\n$5\r\nmykey\r\n", 1), "$-1\r\n");
}

#[test]
fn set_then_get() {
    let mut c = ExpiringCache::new();
    assert_eq!(
        at(&mut c, "*3\r\n$3\r\nSET\r\n$5\r\nmykey\r\n$5\r\nmyval\r\n", 10),
        "+OK\r\n"
    );
    assert_eq!(at(&mut c, "*2\r\n$3\r\nGET\r\n$5\r\nmykey\r\n", 11), "+myval\r\n");
    assert_eq!(at(&mut c, "*2\r\n$3\r\nget\r\n$5\r\nMYKEY\r\n", 11), "$-1\r\n");
}

#[test]
fn set_px_zero_expires() {
    let mut c = ExpiringCache::new();
    assert_eq!(
        at(&mut c, "*5\r\n$3\r\nSET\r\n$1\r\nk\r\n$1\r\nv\r\n$2\r\npx\r\n$1\r\n0\r\n", 100),
        "+OK\r\n"
    );
    assert_eq!(at(&mut c, "*2\r\n$3\r\nGET\r\n$1\r\nk\r\n", 100), "+v\r\n");
    assert_eq!(at(&mut c, "*2\r\n$3\r\nGET\r\n$1\r\nk\r\n", 101), "$-1\r\n");
    assert_eq!(c.len(), 0);
}

#[test]
fn later_set_clears_expiry() {
    let mut c = ExpiringCache::new();
    at(&mut c, "*5\r\n$3\r\nSET\r\n$1\r\nk\r\n$2\r\nv1\r\n$2\r\nPX\r\n$6\r\n100000\r\n", 0);
    assert_eq!(at(&mut c, "*2\r\n$3\r\nGET\r\n$1\r\nk\r\n", 100000), "+v1\r\n");
    at(&mut c, "*3\r\n$3\r\nSET\r\n$1\r\nk\r\n$2\r\nv2\r\n", 1);
    assert_eq!(at(&mut c, "*2\r\n$3\r\nGET\r\n$1\r\nk\r\n", 200001), "+v2\r\n");
}

#[test]
fn distinct_keys_independent() {
    let mut c = ExpiringCache::new();
    assert_eq!(at(&mut c, "*3\r\n$3\r\nSET\r\n$2\r\nk1\r\n$2\r\nv1\r\n", 1), "+OK\r\n");
    assert_eq!(at(&mut c, "*3\r\n$3\r\nSET\r\n$2\r\nk2\r\n$2\r\nv2\r\n", 1), "+OK\r\n");
    assert_eq!(c.len(), 2);
    assert_eq!(at(&mut c, "*2\r\n$3\r\nGET\r\n$2\r\nk1\r\n", 2), "+v1\r\n");
    assert_eq!(at(&mut c, "*2\r\n$3\r\nGET\r\n$2\r\nk2\r\n", 2), "+v2\r\n");
}

#[test]
fn repeated_set_same_result() {
    let mut c = ExpiringCache::new();
    for t in 0..5u128 {
        assert_eq!(at(&mut c, "*3\r\n$3\r\nSET\r\n$1\r\nk\r\n$1\r\nv\r\n", t), "+OK\r\n");
        assert_eq!(c.len(), 1);
        assert_eq!(at(&mut c, "*2\r\n$3\r\nGET\r\n$1\r\nk\r\n", t), "+v\r\n");
    }
}

#[test]
fn expired_entry_not_read() {
    let mut c = ExpiringCache::new();
    RedisServer::add_key(&mut c, "a".to_string(), "x".to_string(), Some(10), 50);
    RedisServer::add_key(&mut c, "b".to_string(), "y".to_string(), None, 50);
    assert_eq!(c.len(), 2);
    assert_eq!(RedisServer::get_key(&mut c, &"a".to_string(), 60), Some("x".to_string()));
    assert_eq!(RedisServer::get_key(&mut c, &"a".to_string(), 61), None);
    assert_eq!(c.len(), 1);
    assert_eq!(RedisServer::get_key(&mut c, &"b".to_string(), u128::MAX), Some("y".to_string()));
}

#[test]
fn huge_expiry_saturates() {
    let mut c = ExpiringCache::new();
    RedisServer::add_key(&mut c, "k".to_string(), "v".to_string(), Some(u128::MAX), 7);
    assert_eq!(RedisServer::get_key(&mut c, &"k".to_string(), u128::MAX), Some("v".to_string()));
}

#[test]
fn set_with_too_few_args() {
    let mut c = ExpiringCache::new();
    assert_eq!(
        at(&mut c, "*2\r\n$3\r\nSET\r\n$1\r\nk\r\n", 1),
        "+Wrong number of args for SET command: [\"$1\", \"k\"]!\r\n"
    );
    assert_eq!(c.len(), 0);
}

#[test]
fn get_with_wrong_args() {
    let mut c = ExpiringCache::new();
    assert_eq!(
        at(&mut c, "*1\r\n$3\r\nGET\r\n", 1),
        "+Wrong number of args for GET command: []!\r\n"
    );
}

#[test]
fn set_unsupported_option() {
    let mut c = ExpiringCache::new();
    assert_eq!(
        at(&mut c, "*5\r\n$3\r\nSET\r\n$1\r\nk\r\n$1\r\nv\r\n$2\r\nex\r\n$2\r\n10\r\n", 1),
        "+Unsupported option: EX for SET request!\r\n"
    );
    assert_eq!(c.len(), 0);
}

#[test]
fn set_px_missing_value() {
    let mut c = ExpiringCache::new();
    assert_eq!(
        at(&mut c, "*4\r\n$3\r\nSET\r\n$1\r\nk\r\n$1\r\nv\r\n$2\r\nPX\r\n", 1),
        "+Couldn't find PX value in SET request!\r\n"
    );
    assert_eq!(c.len(), 0);
}

#[test]
fn set_px_invalid_value() {
    let mut c = ExpiringCache::new();
    assert_eq!(
        at(&mut c, "*5\r\n$3\r\nSET\r\n$1\r\nk\r\n$1\r\nv\r\n$2\r\nPX\r\n$3\r\nabc\r\n", 1),
        "+Invalid PX value: abc for SET request!\r\n"
    );
    assert_eq!(c.len(), 0);
}

#[test]
fn decode_errors() {
    assert_eq!(RedisServer::decode_request(""), Err(DecodeError::Empty));
    assert_eq!(RedisServer::decode_request("PING\r\n"), Err(DecodeError::BadArrayHeader));
    assert_eq!(RedisServer::decode_request("*x\r\n$4\r\nPING\r\n"), Err(DecodeError::BadArrayHeader));
    assert_eq!(RedisServer::decode_request("*1\r\n$4\r\n"), Err(DecodeError::MissingCommand));
    assert_eq!(RedisServer::decode_request("*1\r\n$4\r\nPONG\r\n"), Err(DecodeError::UnknownCommand));
    assert_eq!(RedisServer::decode_request("*3\r\n$3\r\nset\r\n"), Ok(Command::SetKey));
    let mut c = ExpiringCache::new();
    assert_eq!(at(&mut c, "*1\r\n$4\r\nPONG\r\n", 1), "+Unknown command!\r\n");
    assert_eq!(at(&mut c, "", 1), "+Empty request!\r\n");
}

#[test]
fn upper_and_names() {
    assert_eq!(RedisServer::decode_request("*1\r\n$4\r\neCho\r\n"), Ok(Command::Echo));
    assert_eq!(command_from_name("GET"), Some(Command::Get));
    assert_eq!(command_from_name("get"), None);
    assert_eq!(command_from_name("PINGS"), None);
}

#[test]
fn parse_numbers() {
    let p = |s: &str| {
        let c = chars(s);
        parse_u128(&c, 0, c.len())
    };
    assert_eq!(p("0"), Some(0));
    assert_eq!(p("+12"), Some(12));
    assert_eq!(p("100000"), Some(100000));
    assert_eq!(p(""), None);
    assert_eq!(p("+"), None);
    assert_eq!(p("-1"), None);
    assert_eq!(p("1a"), None);
    assert_eq!(p("340282366920938463463374607431768211455"), Some(u128::MAX));
    assert_eq!(p("340282366920938463463374607431768211456"), None);
    let c = chars("*42");
    assert_eq!(parse_u128(&c, 1, 3), Some(42));
}

#[test]
fn split_tokens() {
    assert_eq!(split_request("a\r\nb\r\n"), vec!["a".to_string(), "b".to_string()]);
    assert_eq!(split_request("a\r\n\r\n"), vec!["a".to_string(), "".to_string()]);
    assert_eq!(split_request("a\r\nb"), vec!["a".to_string(), "b".to_string()]);
    assert_eq!(split_request("a\r\rb\n"), vec!["a\r\rb\n".to_string()]);
    assert_eq!(split_request(""), Vec::<String>::new());
}

#[test]
fn frame_from_buffer() {
    let mut buf = vec![0u8; 16];
    assert_eq!(frame_text(&buf), Err(SessionError::NoText));
    buf[..4].copy_from_slice(b"PING");
    assert_eq!(frame_text(&buf), Ok("PING".to_string()));
    assert_eq!(frame_text(&vec![0xffu8, 0]), Err(SessionError::NotUtf8));
    assert_eq!(frame_text(&b"ab".to_vec()), Ok("ab".to_string()));
}

#[test]
fn decode_error_messages() {
    assert_eq!(DecodeError::BadArrayHeader.message(), "+Request is not a valid RESP array!\r\n");
    assert_eq!(DecodeError::MissingCommand.message(), "+Unable to find a command in RESP array!\r\n");
}

#[test]
fn split_keeps_trailing_piece() {
    assert_eq!(split_pieces("a\r\n"), vec!["a".to_string(), "".to_string()]);
    assert_eq!(split_pieces(""), vec!["".to_string()]);
}

#[test]
fn ping_lines_answered() {
    assert_eq!(reply_to_ping_lines("PING\r\nping\r\nfoo\r\n"), "+PONG\r\n+PONG\r\n");
    assert_eq!(reply_to_ping_lines("hello"), "");
    assert_eq!(reply_to_ping_lines("pInG"), "+PONG\r\n");
}
