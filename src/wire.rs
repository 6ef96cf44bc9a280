//! Wire codec: decimal numbers and the encoding of outbound commands.
use vstd::prelude::*;

verus! {

pub const SPACE: u8 = 32;

pub const CR: u8 = 13;

pub const LF: u8 = 10;

pub open spec fn is_digit(b: u8) -> bool {
    48 <= b <= 57
}

pub open spec fn all_digits(s: Seq<u8>) -> bool {
    forall|i: int| 0 <= i < s.len() ==> is_digit(#[trigger] s[i])
}

/// The decimal digits of `n`, most significant first, without leading zeros.
pub open spec fn decimal(n: nat) -> Seq<u8>
    decreases n,
{
    if n < 10 {
        seq![(48 + n) as u8]
    } else {
        decimal(n / 10).push((48 + n % 10) as u8)
    }
}

/// The number that a string of decimal digits denotes.
pub open spec fn digits_value(s: Seq<u8>) -> nat
    decreases s.len(),
{
    if s.len() == 0 {
        0
    } else {
        digits_value(s.drop_last()) * 10 + (s.last() - 48) as nat
    }
}

/// What `parse_decimal` makes of `s`: a non-empty run of digits whose value fits in a `u64`.
pub open spec fn decimal_value(s: Seq<u8>) -> Option<u64> {
    if s.len() > 0 && all_digits(s) && digits_value(s) <= u64::MAX {
        Some(digits_value(s) as u64)
    } else {
        None
    }
}

/// The bytes `CR LF` that end every line of the protocol.
pub open spec fn crlf() -> Seq<u8> {
    seq![CR, LF]
}

pub proof fn lemma_decimal_digits(n: nat)
    ensures
        decimal(n).len() > 0,
        all_digits(decimal(n)),
        digits_value(decimal(n)) == n,
    decreases n,
{
    if n >= 10 {
        lemma_decimal_digits(n / 10);
        let d = decimal(n);
        assert(d.drop_last() =~= decimal(n / 10));
        assert forall|i: int| 0 <= i < d.len() implies is_digit(#[trigger] d[i]) by {
            if i < d.len() - 1 {
                assert(d[i] == decimal(n / 10)[i]);
            }
        }
        assert(digits_value(d) == (n / 10) * 10 + n % 10);
    } else {
        let d = decimal(n);
        assert(d.drop_last() =~= Seq::<u8>::empty());
        assert(digits_value(d) == digits_value(d.drop_last()) * 10 + (d.last() - 48) as nat);
    }
}

proof fn lemma_prefix_value_le(s: Seq<u8>, k: int)
    requires
        0 <= k <= s.len(),
    ensures
        digits_value(s.take(k)) <= digits_value(s),
    decreases s.len(),
{
    if k < s.len() {
        lemma_prefix_value_le(s.drop_last(), k);
        assert(s.drop_last().take(k) =~= s.take(k));
    } else {
        assert(s.take(k) =~= s);
    }
}

/// Appends the decimal digits of `n` to `out`.
pub fn write_decimal(out: &mut Vec<u8>, n: u64)
    ensures
        final(out)@ == old(out)@ + decimal(n as nat),
    decreases n,
{
    if n >= 10 {
        write_decimal(out, n / 10);
    }
    out.push(48u8 + (n % 10) as u8);
    proof {
        assert(final(out)@ =~= old(out)@ + decimal(n as nat));
    }
}

/// Reads a non-negative decimal number; `None` where `s` is empty, holds a
/// byte that is not a digit, or denotes a number above `u64::MAX`.
pub fn parse_decimal(s: &[u8]) -> (r: Option<u64>)
    ensures
        r == decimal_value(s@),
{
    if s.len() == 0 {
        return None;
    }
    let mut v: u64 = 0;
    let mut i: usize = 0;
    while i < s.len()
        invariant
            0 <= i <= s.len(),
            all_digits(s@.take(i as int)),
            v == digits_value(s@.take(i as int)),
        decreases s.len() - i,
    {
        let b = s[i];
        if b < 48 || b > 57 {
            assert(!is_digit(s@[i as int]));
            return None;
        }
        let d = (b - 48) as u64;
        let ghost next = s@.take(i + 1);
        assert(next.drop_last() =~= s@.take(i as int));
        if v > (u64::MAX - d) / 10 {
            proof {
                lemma_prefix_value_le(s@, i + 1);
                assert(digits_value(next) == v * 10 + d);
            }
            return None;
        }
        v = v * 10 + d;
        i = i + 1;
        assert forall|j: int| 0 <= j < next.len() implies is_digit(#[trigger] next[j]) by {
            if j < i - 1 {
                assert(next[j] == s@.take(i - 1)[j]);
            }
        }
    }
    assert(s@.take(i as int) =~= s@);
    Some(v)
}

/// Appends `s` to `out`.
pub fn append_bytes(out: &mut Vec<u8>, s: &[u8])
    ensures
        final(out)@ == old(out)@ + s@,
{
    let mut i: usize = 0;
    while i < s.len()
        invariant
            0 <= i <= s.len(),
            out@ == old(out)@ + s@.take(i as int),
        decreases s.len() - i,
    {
        out.push(s[i]);
        i = i + 1;
        assert(out@ =~= old(out)@ + s@.take(i as int));
    }
    assert(s@.take(i as int) =~= s@);
}

/// `CONNECT`
pub open spec fn kw_connect() -> Seq<u8> {
    seq![67u8, 79u8, 78u8, 78u8, 69u8, 67u8, 84u8]
}

/// `PUB`
pub open spec fn kw_pub() -> Seq<u8> {
    seq![80u8, 85u8, 66u8]
}

/// `SUB`
pub open spec fn kw_sub() -> Seq<u8> {
    seq![83u8, 85u8, 66u8]
}

/// `UNSUB`
pub open spec fn kw_unsub() -> Seq<u8> {
    seq![85u8, 78u8, 83u8, 85u8, 66u8]
}

/// `PING`
pub open spec fn kw_ping() -> Seq<u8> {
    seq![80u8, 73u8, 78u8, 71u8]
}

/// `PONG`
pub open spec fn kw_pong() -> Seq<u8> {
    seq![80u8, 79u8, 78u8, 71u8]
}

/// `MSG`
pub open spec fn kw_msg() -> Seq<u8> {
    seq![77u8, 83u8, 71u8]
}

/// `INFO`
pub open spec fn kw_info() -> Seq<u8> {
    seq![73u8, 78u8, 70u8, 79u8]
}

/// `+OK`
pub open spec fn kw_ok() -> Seq<u8> {
    seq![43u8, 79u8, 75u8]
}

/// `-ERR`
pub open spec fn kw_err() -> Seq<u8> {
    seq![45u8, 69u8, 82u8, 82u8]
}

/// A command that the client sends to the server.
pub enum Command {
    /// `CONNECT <options>`: the handshake options, already encoded as JSON.
    Connect { options: Vec<u8> },
    /// `PUB <subject> [reply_to] <size>` followed by the payload.
    Publish { subject: Vec<u8>, reply_to: Option<Vec<u8>>, payload: Vec<u8> },
    /// `SUB <subject> [queue_group] <sid>`.
    Subscribe { subject: Vec<u8>, queue_group: Option<Vec<u8>>, sid: u64 },
    /// `UNSUB <sid>`.
    Unsubscribe { sid: u64 },
    Ping,
    Pong,
}

pub open spec fn opt_bytes(o: Option<Vec<u8>>) -> Option<Seq<u8>> {
    match o {
        Some(v) => Some(v@),
        None => None,
    }
}

/// An optional argument of a command line: the token and a space, or nothing.
pub open spec fn optional_arg(o: Option<Seq<u8>>) -> Seq<u8> {
    match o {
        Some(v) => v.push(SPACE),
        None => Seq::empty(),
    }
}

/// `PUB <subject> [reply_to] <size>`, the payload, each followed by `CR LF`.
pub open spec fn pub_bytes(subject: Seq<u8>, reply_to: Option<Seq<u8>>, payload: Seq<u8>) -> Seq<u8> {
    kw_pub().push(SPACE) + subject.push(SPACE) + optional_arg(reply_to) + decimal(payload.len())
        + crlf() + payload + crlf()
}

/// `SUB <subject> [queue_group] <sid>` and `CR LF`.
pub open spec fn sub_bytes(subject: Seq<u8>, queue_group: Option<Seq<u8>>, sid: u64) -> Seq<u8> {
    kw_sub().push(SPACE) + subject.push(SPACE) + optional_arg(queue_group) + decimal(sid as nat)
        + crlf()
}

/// `UNSUB <sid>` and `CR LF`.
pub open spec fn unsub_bytes(sid: u64) -> Seq<u8> {
    kw_unsub().push(SPACE) + decimal(sid as nat) + crlf()
}

/// The exact bytes of a command on the wire.
pub open spec fn command_bytes(c: Command) -> Seq<u8> {
    match c {
        Command::Connect { options } => kw_connect().push(SPACE) + options@ + crlf(),
        Command::Publish { subject, reply_to, payload } => pub_bytes(
            subject@,
            opt_bytes(reply_to),
            payload@,
        ),
        Command::Subscribe { subject, queue_group, sid } => sub_bytes(
            subject@,
            opt_bytes(queue_group),
            sid,
        ),
        Command::Unsubscribe { sid } => unsub_bytes(sid),
        Command::Ping => kw_ping() + crlf(),
        Command::Pong => kw_pong() + crlf(),
    }
}

fn push_crlf(out: &mut Vec<u8>)
    ensures
        final(out)@ == old(out)@ + crlf(),
{
    out.push(CR);
    out.push(LF);
    assert(final(out)@ =~= old(out)@ + crlf());
}

fn push_optional_arg(out: &mut Vec<u8>, o: &Option<Vec<u8>>)
    ensures
        final(out)@ == old(out)@ + optional_arg(opt_bytes(*o)),
{
    match o {
        Some(v) => {
            append_bytes(out, v.as_slice());
            out.push(SPACE);
        },
        None => {},
    }
    assert(final(out)@ =~= old(out)@ + optional_arg(opt_bytes(*o)));
}

/// Appends a `PUB` frame to `out`.
pub fn write_pub(out: &mut Vec<u8>, subject: &[u8], reply_to: &Option<Vec<u8>>, payload: &[u8])
    ensures
        final(out)@ == old(out)@ + pub_bytes(subject@, opt_bytes(*reply_to), payload@),
{
    // "PUB "
    append_bytes(out, &[80u8, 85u8, 66u8, SPACE]);
    append_bytes(out, subject);
    out.push(SPACE);
    push_optional_arg(out, reply_to);
    write_decimal(out, payload.len() as u64);
    push_crlf(out);
    append_bytes(out, payload);
    push_crlf(out);
    assert(final(out)@ =~= old(out)@ + pub_bytes(subject@, opt_bytes(*reply_to), payload@));
}

/// Appends a `SUB` line to `out`.
pub fn write_sub(out: &mut Vec<u8>, subject: &[u8], queue_group: &Option<Vec<u8>>, sid: u64)
    ensures
        final(out)@ == old(out)@ + sub_bytes(subject@, opt_bytes(*queue_group), sid),
{
    // "SUB "
    append_bytes(out, &[83u8, 85u8, 66u8, SPACE]);
    append_bytes(out, subject);
    out.push(SPACE);
    push_optional_arg(out, queue_group);
    write_decimal(out, sid);
    push_crlf(out);
    assert(final(out)@ =~= old(out)@ + sub_bytes(subject@, opt_bytes(*queue_group), sid));
}

/// Appends an `UNSUB` line to `out`.
pub fn write_unsub(out: &mut Vec<u8>, sid: u64)
    ensures
        final(out)@ == old(out)@ + unsub_bytes(sid),
{
    // "UNSUB "
    append_bytes(out, &[85u8, 78u8, 83u8, 85u8, 66u8, SPACE]);
    write_decimal(out, sid);
    push_crlf(out);
    assert(final(out)@ =~= old(out)@ + unsub_bytes(sid));
}

/// Appends the wire form of `c` to `out`.
pub fn write_command(out: &mut Vec<u8>, c: &Command)
    ensures
        final(out)@ == old(out)@ + command_bytes(*c),
{
    let ghost start = out@;
    match c {
        Command::Connect { options } => {
            // "CONNECT "
            append_bytes(out, &[67u8, 79u8, 78u8, 78u8, 69u8, 67u8, 84u8, SPACE]);
            append_bytes(out, options.as_slice());
            push_crlf(out);
        },
        Command::Publish { subject, reply_to, payload } => {
            write_pub(out, subject.as_slice(), reply_to, payload.as_slice());
        },
        Command::Subscribe { subject, queue_group, sid } => {
            write_sub(out, subject.as_slice(), queue_group, *sid);
        },
        Command::Unsubscribe { sid } => {
            write_unsub(out, *sid);
        },
        Command::Ping => {
            // "PING"
            append_bytes(out, &[80u8, 73u8, 78u8, 71u8]);
            push_crlf(out);
        },
        Command::Pong => {
            // "PONG"
            append_bytes(out, &[80u8, 79u8, 78u8, 71u8]);
            push_crlf(out);
        },
    }
    assert(final(out)@ =~= start + command_bytes(*c));
}

/// The wire form of `c`.
pub fn encode_command(c: &Command) -> (r: Vec<u8>)
    ensures
        r@ == command_bytes(*c),
{
    let mut out: Vec<u8> = Vec::new();
    write_command(&mut out, c);
    assert(out@ =~= command_bytes(*c));
    out
}

} // verus!
