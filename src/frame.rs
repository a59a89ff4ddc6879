use vstd::prelude::*;

use crate::decimal::{is_numeral, numeral_value, parse_u128, parse_u128_spec};

verus! {

/// The pieces of `s[start..]` between delimiters, where the scan for the
/// next delimiter has reached index `i`.
pub open spec fn split_from(s: Seq<char>, start: int, i: int) -> Seq<Seq<char>>
    decreases s.len() - i,
{
    if i + 1 >= s.len() {
        seq![s.subrange(start, s.len() as int)]
    } else if s[i] == '\r' && s[i + 1] == '\n' {
        seq![s.subrange(start, i)] + split_from(s, i + 2, i + 2)
    } else {
        split_from(s, start, i + 1)
    }
}

/// The pieces of `s` between CR LF delimiters (an empty text is one empty piece).
pub open spec fn split_delim(s: Seq<char>) -> Seq<Seq<char>> {
    split_from(s, 0, 0)
}

/// The tokens of a frame: its pieces, less a trailing empty one that a
/// terminal delimiter leaves.
pub open spec fn frame_tokens(s: Seq<char>) -> Seq<Seq<char>> {
    let p = split_delim(s);
    if p.len() > 0 && p.last().len() == 0 {
        p.drop_last()
    } else {
        p
    }
}

pub open spec fn views(v: Seq<String>) -> Seq<Seq<char>> {
    v.map_values(|t: String| t@)
}

/// What `str::to_uppercase` returns for a text.
pub uninterp spec fn upper_of(s: Seq<char>) -> Seq<char>;

/// Relies on `str::to_uppercase`: its result depends on the characters alone.
#[verifier::external_body]
pub(crate) fn to_upper(s: &str) -> (r: String)
    ensures
        r@ == upper_of(s@),
{
    s.to_uppercase()
}

/// Relies on `str::chars`: it yields the characters of the text in order.
#[verifier::external_body]
pub(crate) fn chars_of(s: &str) -> (r: Vec<char>)
    ensures
        r@ == s@,
{
    s.chars().collect()
}

/// Splits a text into its pieces on CR LF.
pub fn split_pieces(request: &str) -> (r: Vec<String>)
    ensures
        views(r@) == split_delim(request@),
        r@.len() > 0,
{
    let c = chars_of(request);
    let n = c.len();
    let mut toks: Vec<String> = Vec::new();
    let mut start: usize = 0;
    let mut i: usize = 0;
    while n - i > 1
        invariant
            c@ == request@,
            n == c@.len(),
            start <= i <= n,
            views(toks@) + split_from(c@, start as int, i as int) == split_delim(c@),
        decreases n - i,
    {
        if c[i] == '\r' && c[i + 1] == '\n' {
            let piece = String::from_str(request.substring_char(start, i));
            proof {
                assert(views(toks@.push(piece)) =~= views(toks@).push(piece@));
                assert(views(toks@.push(piece)) + split_from(c@, i + 2, i + 2) =~= views(toks@)
                    + split_from(c@, start as int, i as int));
            }
            toks.push(piece);
            i = i + 2;
            start = i;
        } else {
            i = i + 1;
        }
    }
    let last = String::from_str(request.substring_char(start, n));
    proof {
        assert(views(toks@.push(last)) =~= views(toks@) + split_from(c@, start as int, i as int));
    }
    toks.push(last);
    toks
}

/// Splits a frame into its tokens on CR LF, dropping the trailing empty token
/// that a terminal delimiter leaves.
pub fn split_request(request: &str) -> (r: Vec<String>)
    ensures
        views(r@) == frame_tokens(request@),
{
    let mut toks = split_pieces(request);
    let ghost p = views(toks@);
    let n = toks.len();
    assert(p[n - 1] == toks@[n - 1]@);
    if toks[n - 1].unicode_len() == 0 {
        toks.pop();
        assert(views(toks@) =~= p.drop_last());
    }
    toks
}

/// Whether a text holds no CR LF delimiter.
pub open spec fn no_delim(t: Seq<char>) -> bool {
    forall|j: int| 0 <= j && j + 1 < t.len() ==> !(#[trigger] t[j] == '\r' && t[j + 1] == '\n')
}

/// A frame that carries the given tokens, each followed by CR LF.
pub open spec fn encode_tokens(toks: Seq<Seq<char>>) -> Seq<char>
    decreases toks.len(),
{
    if toks.len() == 0 {
        Seq::empty()
    } else {
        toks[0] + seq!['\r', '\n'] + encode_tokens(toks.skip(1))
    }
}

proof fn lemma_split_shift(x: Seq<char>, y: Seq<char>, a: int, i: int)
    requires
        0 <= a <= i <= y.len(),
    ensures
        split_from(x + y, x.len() + a, x.len() + i) == split_from(y, a, i),
    decreases y.len() - i,
{
    let s = x + y;
    let n = x.len() as int;
    if i + 1 >= y.len() {
        assert(s.subrange(n + a, s.len() as int) =~= y.subrange(a, y.len() as int));
    } else {
        assert(s[n + i] == y[i] && s[n + i + 1] == y[i + 1]);
        if y[i] == '\r' && y[i + 1] == '\n' {
            assert(s.subrange(n + a, n + i) =~= y.subrange(a, i));
            lemma_split_shift(x, y, i + 2, i + 2);
        } else {
            lemma_split_shift(x, y, a, i + 1);
        }
    }
}

proof fn lemma_split_scan(s: Seq<char>, start: int, i: int, d: int)
    requires
        0 <= start <= i <= d,
        d + 1 < s.len(),
        s[d] == '\r',
        s[d + 1] == '\n',
        forall|j: int| i <= j < d ==> !(#[trigger] s[j] == '\r' && s[j + 1] == '\n'),
    ensures
        split_from(s, start, i) == seq![s.subrange(start, d)] + split_from(s, d + 2, d + 2),
    decreases d - i,
{
    if i < d {
        assert(!(s[i] == '\r' && s[i + 1] == '\n'));
        lemma_split_scan(s, start, i + 1, d);
    }
}

/// Splitting a frame built from delimiter-free tokens gives back the
/// tokens, then the empty piece after the last delimiter.
proof fn lemma_split_encoded(toks: Seq<Seq<char>>)
    requires
        forall|i: int| 0 <= i < toks.len() ==> no_delim(#[trigger] toks[i]),
    ensures
        split_delim(encode_tokens(toks)) == toks.push(Seq::<char>::empty()),
    decreases toks.len(),
{
    let s = encode_tokens(toks);
    if toks.len() == 0 {
        assert(s.subrange(0, 0) =~= Seq::<char>::empty());
        assert(toks.push(Seq::<char>::empty()) =~= seq![Seq::<char>::empty()]);
    } else {
        let t0 = toks[0];
        let x = t0 + seq!['\r', '\n'];
        let rest = toks.skip(1);
        let y = encode_tokens(rest);
        let d = t0.len() as int;
        assert(s == x + y);
        assert(no_delim(t0));
        assert forall|j: int| 0 <= j < d implies !(#[trigger] s[j] == '\r' && s[j + 1] == '\n') by {
            assert(s[j] == t0[j]);
            if j + 1 < d {
                assert(s[j + 1] == t0[j + 1]);
            } else {
                assert(s[j + 1] == '\r');
            }
        }
        assert(s[d] == '\r' && s[d + 1] == '\n');
        lemma_split_scan(s, 0, 0, d);
        assert(s.subrange(0, d) =~= t0);
        lemma_split_shift(x, y, 0, 0);
        assert(forall|i: int| 0 <= i < rest.len() ==> #[trigger] rest[i] == toks[i + 1]);
        lemma_split_encoded(rest);
        assert(toks.push(Seq::<char>::empty()) =~= seq![t0] + rest.push(Seq::<char>::empty()));
    }
}

/// Framing and splitting are inverse: the tokens of a frame built from
/// delimiter-free tokens are those tokens.
pub proof fn framing_round_trip(toks: Seq<Seq<char>>)
    requires
        forall|i: int| 0 <= i < toks.len() ==> no_delim(#[trigger] toks[i]),
    ensures
        frame_tokens(encode_tokens(toks)) == toks,
{
    lemma_split_encoded(toks);
    assert(toks.push(Seq::<char>::empty()).drop_last() =~= toks);
}

/// A request's command.
#[derive(Debug, Clone, Copy, PartialEq, Eq, Structural)]
pub enum Command {
    Ping,
    Echo,
    Get,
    SetKey,
}

/// Why a frame could not be decoded.
#[derive(Debug, Clone, Copy, PartialEq, Eq, Structural)]
pub enum DecodeError {
    /// The frame holds no token at all.
    Empty,
    /// The first token is not `*` followed by a decimal element count.
    BadArrayHeader,
    /// No token stands where the command name belongs.
    MissingCommand,
    /// The command name is none of PING, ECHO, GET and SET.
    UnknownCommand,
}

/// The command that an upper-cased name denotes.
pub open spec fn command_named(name: Seq<char>) -> Option<Command> {
    if name == seq!['P', 'I', 'N', 'G'] {
        Some(Command::Ping)
    } else if name == seq!['E', 'C', 'H', 'O'] {
        Some(Command::Echo)
    } else if name == seq!['G', 'E', 'T'] {
        Some(Command::Get)
    } else if name == seq!['S', 'E', 'T'] {
        Some(Command::SetKey)
    } else {
        None
    }
}

/// Whether a token is `*` followed by an element count that fits a `usize`.
pub open spec fn is_array_header(t: Seq<char>) -> bool {
    &&& t.len() > 0
    &&& t[0] == '*'
    &&& is_numeral(t.skip(1))
    &&& numeral_value(t.skip(1)) <= usize::MAX
}

/// What decoding a frame's tokens gives. The command name stands at index 2,
/// after the array header and the name's length token.
pub open spec fn decode_spec(toks: Seq<Seq<char>>) -> Result<Command, DecodeError> {
    if toks.len() == 0 {
        Err(DecodeError::Empty)
    } else if !is_array_header(toks[0]) {
        Err(DecodeError::BadArrayHeader)
    } else if toks.len() < 3 {
        Err(DecodeError::MissingCommand)
    } else {
        match command_named(upper_of(toks[2])) {
            Some(c) => Ok(c),
            None => Err(DecodeError::UnknownCommand),
        }
    }
}

pub(crate) fn chars_eq(a: &Vec<char>, b: &Vec<char>) -> (r: bool)
    ensures
        r == (a@ == b@),
{
    if a.len() != b.len() {
        return false;
    }
    let mut i: usize = 0;
    while i < a.len()
        invariant
            a@.len() == b@.len(),
            i <= a@.len(),
            forall|k: int| 0 <= k < i ==> a@[k] == b@[k],
        decreases a@.len() - i,
    {
        if a[i] != b[i] {
            return false;
        }
        i = i + 1;
    }
    assert(a@ =~= b@);
    true
}

/// The command for an already upper-cased name, if it is one of the four.
pub fn command_from_name(name: &str) -> (r: Option<Command>)
    ensures
        r == command_named(name@),
{
    let c = chars_of(name);
    if chars_eq(&c, &vec!['P', 'I', 'N', 'G']) {
        Some(Command::Ping)
    } else if chars_eq(&c, &vec!['E', 'C', 'H', 'O']) {
        Some(Command::Echo)
    } else if chars_eq(&c, &vec!['G', 'E', 'T']) {
        Some(Command::Get)
    } else if chars_eq(&c, &vec!['S', 'E', 'T']) {
        Some(Command::SetKey)
    } else {
        None
    }
}

fn header_ok(t: &String) -> (r: bool)
    ensures
        r == is_array_header(t@),
{
    let c = chars_of(t.as_str());
    if c.len() == 0 || c[0] != '*' {
        return false;
    }
    assert(c@.subrange(1, c@.len() as int) =~= t@.skip(1));
    match parse_u128(&c, 1, c.len()) {
        Some(v) => v <= usize::MAX as u128,
        None => false,
    }
}

/// Decodes a frame's tokens into its command.
pub fn decode_tokens(toks: &Vec<String>) -> (r: Result<Command, DecodeError>)
    ensures
        r == decode_spec(views(toks@)),
{
    if toks.len() == 0 {
        return Err(DecodeError::Empty);
    }
    if !header_ok(&toks[0]) {
        return Err(DecodeError::BadArrayHeader);
    }
    if toks.len() < 3 {
        return Err(DecodeError::MissingCommand);
    }
    let upper = to_upper(toks[2].as_str());
    match command_from_name(upper.as_str()) {
        Some(c) => Ok(c),
        None => Err(DecodeError::UnknownCommand),
    }
}

} // verus!
