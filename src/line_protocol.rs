use vstd::prelude::*;

use crate::frame::{chars_eq, chars_of, split_delim, split_pieces, to_upper, upper_of, views};

verus! {

/// The replies to a text read as plain lines: `+PONG` CR LF for each line
/// that reads PING in any case, nothing for any other line.
pub open spec fn pong_replies(lines: Seq<Seq<char>>) -> Seq<char>
    decreases lines.len(),
{
    if lines.len() == 0 {
        Seq::empty()
    } else {
        pong_replies(lines.drop_last()) + if upper_of(lines.last()) == seq!['P', 'I', 'N', 'G'] {
            "+PONG\r\n"@
        } else {
            Seq::empty()
        }
    }
}

/// Answers every PING line of a request text; other lines get no reply.
pub fn reply_to_ping_lines(request: &str) -> (r: String)
    ensures
        r@ == pong_replies(split_delim(request@)),
{
    let lines = split_pieces(request);
    let mut out = String::new();
    let mut i: usize = 0;
    while i < lines.len()
        invariant
            i <= lines@.len(),
            views(lines@) == split_delim(request@),
            out@ == pong_replies(views(lines@).take(i as int)),
        decreases lines@.len() - i,
    {
        let upper = to_upper(lines[i].as_str());
        let uc = chars_of(upper.as_str());
        let ghost before = views(lines@).take(i as int);
        assert(views(lines@).take(i + 1).drop_last() =~= before);
        assert(views(lines@).take(i + 1).last() == lines@[i as int]@);
        if chars_eq(&uc, &vec!['P', 'I', 'N', 'G']) {
            out.append("+PONG\r\n");
        } else {
            assert(out@ + Seq::<char>::empty() =~= out@);
        }
        i = i + 1;
    }
    assert(views(lines@).take(i as int) =~= views(lines@));
    out
}

} // verus!
