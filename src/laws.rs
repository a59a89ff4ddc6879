use vstd::prelude::*;

use crate::cache::{lookup, Stored};
use crate::decimal::parse_u128_spec;
use crate::frame::{
    decode_spec, encode_tokens, frame_tokens, framing_round_trip, is_array_header, no_delim,
    upper_of, Command, DecodeError,
};
use crate::server::{
    command_effect, command_reply, get_effect, get_reply, null_reply, request_effect,
    request_reply, set_effect, set_reply, simple_string,
};

verus! {

/// The arguments of `SET k v`, each after its length token.
pub open spec fn set_args(lk: Seq<char>, k: Seq<char>, lv: Seq<char>, v: Seq<char>) -> Seq<
    Seq<char>,
> {
    seq![lk, k, lv, v]
}

/// The arguments of `SET k v PX n`, each after its length token.
pub open spec fn set_px_args(
    lk: Seq<char>,
    k: Seq<char>,
    lv: Seq<char>,
    v: Seq<char>,
    lo: Seq<char>,
    o: Seq<char>,
    ln: Seq<char>,
    n: Seq<char>,
) -> Seq<Seq<char>> {
    seq![lk, k, lv, v, lo, o, ln, n]
}

/// A frame whose command is PING is answered `+PONG` and leaves the store
/// as it was, whatever the store holds.
pub proof fn ping_always_pongs(s: Seq<char>, m: Map<Seq<char>, Stored>, now: u128)
    requires
        decode_spec(frame_tokens(s)) == Ok::<Command, DecodeError>(Command::Ping),
    ensures
        request_reply(s, m, now) == "+PONG\r\n"@,
        request_effect(s, m, now) == m,
{
}

/// ECHO with one argument answers that argument as a simple string.
pub proof fn echo_returns_argument(
    ls: Seq<char>,
    s: Seq<char>,
    m: Map<Seq<char>, Stored>,
    now: u128,
)
    ensures
        command_reply(Command::Echo, seq![ls, s], m, now) == simple_string(s),
        command_effect(Command::Echo, seq![ls, s], m, now) == m,
{
}

/// The frame `ECHO s`, built from a valid array header and delimiter-free
/// tokens, is answered `+s` CR LF and leaves the store as it was.
pub proof fn echo_frame_returns_text(
    h: Seq<char>,
    le: Seq<char>,
    e: Seq<char>,
    ls: Seq<char>,
    s: Seq<char>,
    m: Map<Seq<char>, Stored>,
    now: u128,
)
    requires
        is_array_header(h),
        upper_of(e) == seq!['E', 'C', 'H', 'O'],
        no_delim(h),
        no_delim(le),
        no_delim(e),
        no_delim(ls),
        no_delim(s),
    ensures
        request_reply(encode_tokens(seq![h, le, e, ls, s]), m, now) == simple_string(s),
        request_effect(encode_tokens(seq![h, le, e, ls, s]), m, now) == m,
{
    let toks = seq![h, le, e, ls, s];
    assert forall|i: int| 0 <= i < toks.len() implies no_delim(#[trigger] toks[i]) by {
        if i == 0 {
            assert(toks[i] == h);
        } else if i == 1 {
            assert(toks[i] == le);
        } else if i == 2 {
            assert(toks[i] == e);
        } else if i == 3 {
            assert(toks[i] == ls);
        } else {
            assert(toks[i] == s);
        }
    }
    framing_round_trip(toks);
    assert(toks.skip(3) =~= seq![ls, s]);
}

/// `SET k v` followed by `GET k` answers `v`, at any two instants.
pub proof fn set_then_get(
    m: Map<Seq<char>, Stored>,
    lk: Seq<char>,
    k: Seq<char>,
    lv: Seq<char>,
    v: Seq<char>,
    t1: u128,
    t2: u128,
)
    ensures
        set_reply(set_args(lk, k, lv, v)) == "+OK\r\n"@,
        get_reply(seq![lk, k], set_effect(set_args(lk, k, lv, v), m, t1), t2) == simple_string(v),
{
}

/// `GET k` for a key that the store does not hold answers the null reply
/// and changes nothing.
pub proof fn get_of_unwritten_key(m: Map<Seq<char>, Stored>, lk: Seq<char>, k: Seq<char>, now: u128)
    requires
        !m.contains_key(k),
    ensures
        get_reply(seq![lk, k], m, now) == null_reply(),
        get_effect(seq![lk, k], m, now) == m,
{
}

/// `SET k v PX 0` is answered `+OK`, and any `GET k` at a later instant
/// answers the null reply.
pub proof fn set_px_zero_expires(
    m: Map<Seq<char>, Stored>,
    lk: Seq<char>,
    k: Seq<char>,
    lv: Seq<char>,
    v: Seq<char>,
    lo: Seq<char>,
    o: Seq<char>,
    ln: Seq<char>,
    n: Seq<char>,
    t1: u128,
    t2: u128,
)
    requires
        upper_of(o) == seq!['P', 'X'],
        parse_u128_spec(n) == Some(0u128),
        t1 < t2,
    ensures
        set_reply(set_px_args(lk, k, lv, v, lo, o, ln, n)) == "+OK\r\n"@,
        get_reply(seq![lk, k], set_effect(set_px_args(lk, k, lv, v, lo, o, ln, n), m, t1), t2)
            == null_reply(),
{
}

/// A later `SET k v2` without an expiry replaces an earlier `SET k v1 PX n`:
/// `GET k` then answers `v2` at any instant.
pub proof fn later_set_clears_expiry(
    m: Map<Seq<char>, Stored>,
    lk: Seq<char>,
    k: Seq<char>,
    lv: Seq<char>,
    v1: Seq<char>,
    lo: Seq<char>,
    o: Seq<char>,
    ln: Seq<char>,
    n: Seq<char>,
    lv2: Seq<char>,
    v2: Seq<char>,
    t1: u128,
    t2: u128,
    t3: u128,
)
    ensures
        ({
            let m1 = set_effect(set_px_args(lk, k, lv, v1, lo, o, ln, n), m, t1);
            let m2 = set_effect(set_args(lk, k, lv2, v2), m1, t2);
            get_reply(seq![lk, k], m2, t3) == simple_string(v2)
        }),
{
}

/// SETs of two distinct keys do not disturb each other: either order gives
/// the same store, both values can be read back, and the store grows by the
/// keys it did not hold.
pub proof fn distinct_sets_independent(
    m: Map<Seq<char>, Stored>,
    l1: Seq<char>,
    k1: Seq<char>,
    lv1: Seq<char>,
    v1: Seq<char>,
    l2: Seq<char>,
    k2: Seq<char>,
    lv2: Seq<char>,
    v2: Seq<char>,
    t: u128,
    t3: u128,
)
    requires
        k1 != k2,
        m.dom().finite(),
    ensures
        ({
            let a1 = set_args(l1, k1, lv1, v1);
            let a2 = set_args(l2, k2, lv2, v2);
            let m12 = set_effect(a2, set_effect(a1, m, t), t);
            let m21 = set_effect(a1, set_effect(a2, m, t), t);
            &&& m12 == m21
            &&& lookup(m12, k1, t3) == Some(v1)
            &&& lookup(m12, k2, t3) == Some(v2)
            &&& (!m.contains_key(k1) && !m.contains_key(k2)) ==> m12.dom().len() == m.dom().len()
                + 2
        }),
{
    let a1 = set_args(l1, k1, lv1, v1);
    let a2 = set_args(l2, k2, lv2, v2);
    let m12 = set_effect(a2, set_effect(a1, m, t), t);
    let m21 = set_effect(a1, set_effect(a2, m, t), t);
    assert(m12 =~= m21);
}

/// Repeating a SET with the same arguments leaves the store as one SET at
/// the last instant does, so a following GET answers the same.
pub proof fn set_idempotent(a: Seq<Seq<char>>, m: Map<Seq<char>, Stored>, t1: u128, t2: u128)
    ensures
        set_effect(a, set_effect(a, m, t1), t2) == set_effect(a, m, t2),
{
    let once = set_effect(a, m, t2);
    let twice = set_effect(a, set_effect(a, m, t1), t2);
    assert(twice =~= once);
}

/// A read never sees a value whose entry has expired, even when nothing has
/// dropped the entry yet; the read drops it.
pub proof fn expired_entry_never_read(
    m: Map<Seq<char>, Stored>,
    lk: Seq<char>,
    k: Seq<char>,
    e: u128,
    now: u128,
)
    requires
        m.contains_key(k),
        m[k].1 == Some(e),
        now > e,
    ensures
        get_reply(seq![lk, k], m, now) == null_reply(),
        !get_effect(seq![lk, k], m, now).contains_key(k),
{
}

} // verus!
