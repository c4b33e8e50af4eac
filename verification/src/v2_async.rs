//! A line protocol and the decisions of the loops that serve it. The
//! protocol is a plain function from a request line to a response line; the
//! network and the channels are the caller's.
use vstd::prelude::*;
use crate::text::{
    trim, trim_str, trim_owned, chars_of, string_from, split_once, split_once_at, ascii_upper,
    ascii_uppercase, str_eq, lit, words, str_views, split_ws, parse_signed, parse_i64, dec_int,
    push_dec_signed, debug_quoted, debug_str,
};

verus! {

/// The command word and the trimmed rest of a request line: the line is
/// trimmed and cut at its first space.
pub open spec fn cmd_and_rest(line: Seq<char>) -> (Seq<char>, Seq<char>) {
    let t = trim(line);
    match split_once(t, ' ') {
        Some(parts) => (parts.0, trim(parts.1)),
        None => (t, seq![]),
    }
}

/// The sum that `ADD` answers: exactly two operands, both `i64`, with a sum
/// that fits in `i64`.
pub open spec fn add_result(rest: Seq<char>) -> Option<int> {
    let ws = words(rest);
    if ws.len() == 2 && parse_signed(ws[0]) is Some && parse_signed(ws[1]) is Some {
        let s = parse_signed(ws[0])->0 + parse_signed(ws[1])->0;
        if i64::MIN <= s <= i64::MAX {
            Some(s)
        } else {
            None
        }
    } else {
        None
    }
}

/// The response to a request line. The command is matched without regard to
/// ASCII case: `PING` answers `PONG`, `ECHO` the rest of the line, `ADD` the
/// sum of its two operands; anything else is an error line.
pub open spec fn response(line: Seq<char>) -> Seq<char> {
    let (c, r) = cmd_and_rest(line);
    let u = ascii_upper(c);
    if u.len() == 0 {
        "ERR empty command"@
    } else if u == "PING"@ {
        "PONG"@
    } else if u == "ECHO"@ {
        r
    } else if u == "ADD"@ {
        match add_result(r) {
            Some(v) => dec_int(v),
            None => "ERR invalid ADD operands: "@ + debug_quoted(r),
        }
    } else {
        "ERR unknown command: "@ + u
    }
}

/// Parses the two integer operands of `ADD` and adds them; more or fewer
/// than two operands, an operand that is not an `i64`, or a sum that
/// overflows give `None`.
fn parse_add(rest: &str) -> (r: Option<i64>)
    ensures
        match r {
            Some(v) => add_result(rest@) == Some(v as int),
            None => add_result(rest@) is None,
        },
{
    let ws = split_ws(rest);
    proof {
        assert(str_views(ws@).len() == ws@.len());
    }
    if ws.len() < 2 {
        return None;
    }
    proof {
        assert(str_views(ws@)[0] == ws@[0]@);
        assert(str_views(ws@)[1] == ws@[1]@);
    }
    let a = match parse_i64(ws[0]) {
        Some(a) => a,
        None => {
            return None;
        },
    };
    let b = match parse_i64(ws[1]) {
        Some(b) => b,
        None => {
            return None;
        },
    };
    if ws.len() > 2 {
        return None;
    }
    a.checked_add(b)
}

/// Answers one request line.
pub fn handle_line(line: &str) -> (r: String)
    ensures
        r@ == response(line@),
{
    let t = trim_str(line);
    let v = chars_of(t);
    let (cmd, rest): (String, String) = match split_once_at(&v, ' ') {
        Some(i) => {
            let c = string_from(&v, 0, i);
            let after = string_from(&v, i + 1, v.len());
            (c, trim_owned(after.as_str()))
        },
        None => (string_from(&v, 0, v.len()), String::new()),
    };
    proof {
        assert(v@.subrange(0, v.len() as int) =~= v@);
        assert(cmd@ == cmd_and_rest(line@).0);
        assert(rest@ == cmd_and_rest(line@).1);
    }
    let upper = ascii_uppercase(cmd.as_str());
    if upper.as_str().is_empty() {
        lit("ERR empty command")
    } else if str_eq(upper.as_str(), "PING") {
        lit("PONG")
    } else if str_eq(upper.as_str(), "ECHO") {
        rest
    } else if str_eq(upper.as_str(), "ADD") {
        match parse_add(rest.as_str()) {
            Some(sum) => {
                let mut out = String::new();
                push_dec_signed(&mut out, sum);
                assert(out@ =~= dec_int(sum as int));
                out
            },
            None => {
                let mut out = lit("ERR invalid ADD operands: ");
                let q = debug_str(rest.as_str());
                out.push_str(q.as_str());
                out
            },
        }
    } else {
        let mut out = lit("ERR unknown command: ");
        out.push_str(upper.as_str());
        out
    }
}

/// What the consumer loop sees next: a line, the end of the channel, or the
/// shutdown signal.
pub enum PipelineEvent {
    Line(String),
    Closed,
    Shutdown,
}

/// One step of the consumer loop: a line is answered and the answer kept,
/// and the loop goes on; the end of the channel or the shutdown signal stops
/// it with the answers unchanged.
pub fn pipeline_step(out: &mut Vec<String>, event: PipelineEvent) -> (go_on: bool)
    ensures
        match event {
            PipelineEvent::Line(l) => go_on && final(out)@.len() == old(out)@.len() + 1
                && final(out)@.drop_last() == old(out)@ && final(out)@.last()@ == response(l@),
            _ => !go_on && final(out)@ == old(out)@,
        },
{
    match event {
        PipelineEvent::Line(l) => {
            out.push(handle_line(l.as_str()));
            true
        },
        PipelineEvent::Closed => false,
        PipelineEvent::Shutdown => false,
    }
}

/// The capacity of the producer's bounded channel: as asked, but at least one.
pub fn producer_capacity(capacity: usize) -> (c: usize)
    ensures
        c == if capacity == 0 {
            1
        } else {
            capacity
        },
{
    if capacity == 0 {
        1
    } else {
        capacity
    }
}

} // verus!
