//! The control codec: the tagged text frames that carry commands from the
//! framed channel and events back to it. A command frame is
//! `{"type":"connect","host":"...","port":N}` or `{"type":"disconnect"}`;
//! an event frame is a connect-ack, a disconnect-notice or an error report.
//! Binary payload frames pass through the relay untouched and never reach
//! this codec.

use vstd::prelude::*;

use crate::text;

verus! {

/// A control command received from the framed channel.
#[derive(Debug, Clone, PartialEq, Eq)]
pub enum Command {
    Connect { host: Vec<u8>, port: u16 },
    Disconnect,
}

/// The mathematical model of a [`Command`].
#[verifier::ext_equal]
pub enum CmdModel {
    Connect { host: Seq<u8>, port: u16 },
    Disconnect,
}

impl View for Command {
    type V = CmdModel;

    open spec fn view(&self) -> CmdModel {
        match self {
            Command::Connect { host, port } => CmdModel::Connect { host: host@, port: *port },
            Command::Disconnect => CmdModel::Disconnect,
        }
    }
}

/// A control event sent to the framed channel.
#[derive(Debug, Clone, PartialEq, Eq)]
pub enum Event {
    Connect { ok: bool, error: Option<Vec<u8>> },
    Disconnect { reason: Option<Vec<u8>> },
    Error { message: Vec<u8> },
}

/// The mathematical model of an [`Event`].
#[verifier::ext_equal]
pub enum EventModel {
    Connect { ok: bool, error: Option<Seq<u8>> },
    Disconnect { reason: Option<Seq<u8>> },
    Error { message: Seq<u8> },
}

/// The model of an optional text: the view of each byte vector, if any.
pub open spec fn opt_view(o: Option<Vec<u8>>) -> Option<Seq<u8>> {
    match o {
        Some(v) => Some(v@),
        None => None,
    }
}

impl View for Event {
    type V = EventModel;

    open spec fn view(&self) -> EventModel {
        match self {
            Event::Connect { ok, error } => EventModel::Connect {
                ok: *ok,
                error: opt_view(*error),
            },
            Event::Disconnect { reason } => EventModel::Disconnect { reason: opt_view(*reason) },
            Event::Error { message } => EventModel::Error { message: message@ },
        }
    }
}

/// The lower-case hexadecimal digit of a value below sixteen.
pub open spec fn hex_digit(n: u8) -> u8
    recommends
        n < 16,
{
    if n < 10 {
        (48 + n) as u8
    } else {
        (87 + n) as u8
    }
}

/// JSON string escaping of one byte: quote and backslash get a backslash,
/// the common control bytes get their short escapes, the other control
/// bytes a `\u00XX` escape, and everything else passes through.
pub open spec fn esc_byte(b: u8) -> Seq<u8> {
    if b == 34 {
        seq![92u8, 34u8]
    } else if b == 92 {
        seq![92u8, 92u8]
    } else if b == 10 {
        seq![92u8, 110u8]
    } else if b == 13 {
        seq![92u8, 114u8]
    } else if b == 9 {
        seq![92u8, 116u8]
    } else if b < 32 {
        seq![92u8, 117u8, 48u8, 48u8, hex_digit((b / 16) as u8), hex_digit((b % 16) as u8)]
    } else {
        seq![b]
    }
}

/// JSON string escaping of a byte text.
pub open spec fn esc(s: Seq<u8>) -> Seq<u8>
    decreases s.len(),
{
    if s.len() == 0 {
        Seq::empty()
    } else {
        esc_byte(s[0]) + esc(s.drop_first())
    }
}

/// Escaping distributes over appending one byte at the end.
pub proof fn lemma_esc_snoc(s: Seq<u8>, b: u8)
    ensures
        esc(s.push(b)) == esc(s) + esc_byte(b),
    decreases s.len(),
{
    assert(s.push(b)[0] == if s.len() == 0 { b } else { s[0] });
    if s.len() == 0 {
        assert(s.push(b).drop_first() =~= Seq::<u8>::empty());
        assert(esc(s.push(b)) == esc_byte(b) + esc(Seq::<u8>::empty()));
        assert(esc_byte(b) + Seq::<u8>::empty() =~= esc_byte(b));
        assert(esc(s) + esc_byte(b) =~= esc_byte(b));
    } else {
        assert(s.push(b).drop_first() =~= s.drop_first().push(b));
        lemma_esc_snoc(s.drop_first(), b);
        assert(esc(s.push(b)) == esc_byte(s[0]) + (esc(s.drop_first()) + esc_byte(b)));
        assert(esc_byte(s[0]) + (esc(s.drop_first()) + esc_byte(b)) =~= (esc_byte(s[0]) + esc(
            s.drop_first(),
        )) + esc_byte(b));
    }
}

/// Appends the escaped form of `s` to `out`.
pub fn push_escaped(out: &mut Vec<u8>, s: &[u8])
    ensures
        final(out)@ == old(out)@ + esc(s@),
{
    let n: usize = s.len();
    let mut i: usize = 0;
    while i < n
        invariant
            n == s@.len(),
            i <= n,
            out@ == old(out)@ + esc(s@.subrange(0, i as int)),
        decreases n - i,
    {
        let b: u8 = s[i];
        if b == 34 {
            out.push(92);
            out.push(34);
        } else if b == 92 {
            out.push(92);
            out.push(92);
        } else if b == 10 {
            out.push(92);
            out.push(110);
        } else if b == 13 {
            out.push(92);
            out.push(114);
        } else if b == 9 {
            out.push(92);
            out.push(116);
        } else if b < 32 {
            out.push(92);
            out.push(117);
            out.push(48);
            out.push(48);
            let hi: u8 = b / 16;
            let lo: u8 = b % 16;
            out.push(if hi < 10 { 48 + hi } else { 87 + hi });
            out.push(if lo < 10 { 48 + lo } else { 87 + lo });
        } else {
            out.push(b);
        }
        proof {
            let pre = s@.subrange(0, i as int);
            assert(s@.subrange(0, i as int + 1) =~= pre.push(s@[i as int]));
            lemma_esc_snoc(pre, s@[i as int]);
            assert(out@ =~= old(out)@ + esc(s@.subrange(0, i as int + 1)));
        }
        i = i + 1;
    }
    proof {
        assert(s@.subrange(0, n as int) =~= s@);
    }
}

/// The decimal digits of a number, most significant first, no leading zeros.
pub open spec fn dec(n: nat) -> Seq<u8>
    decreases n,
{
    if n < 10 {
        seq![(48 + n) as u8]
    } else {
        dec(n / 10) + seq![(48 + n % 10) as u8]
    }
}

/// The JSON form of an optional text field: a quoted escaped string, or null.
pub open spec fn opt_text_json(o: Option<Seq<u8>>) -> Seq<u8> {
    match o {
        Some(s) => seq![34u8] + esc(s) + seq![34u8],
        None => text::lit_null(),
    }
}

/// The exact frame bytes of an event.
pub open spec fn event_frame(e: EventModel) -> Seq<u8> {
    match e {
        EventModel::Connect { ok, error } => text::ev_connect_pre() + (if ok {
            text::lit_true()
        } else {
            text::lit_false()
        }) + text::error_key() + opt_text_json(error) + seq![125u8],
        EventModel::Disconnect { reason } => text::ev_disconnect_pre() + opt_text_json(reason)
            + seq![125u8],
        EventModel::Error { message } => text::ev_error_pre() + esc(message) + seq![34u8, 125u8],
    }
}

/// Appends the JSON form of an optional text field to `out`.
fn push_opt_text(out: &mut Vec<u8>, o: &Option<Vec<u8>>)
    ensures
        final(out)@ == old(out)@ + opt_text_json(opt_view(*o)),
{
    match o {
        Some(s) => {
            out.push(34);
            push_escaped(out, s.as_slice());
            out.push(34);
            proof {
                assert(final(out)@ =~= old(out)@ + opt_text_json(opt_view(*o)));
            }
        },
        None => {
            text::push_lit_null(out);
        },
    }
}

/// Encodes an event into the exact bytes of its text frame.
pub fn encode_event(e: &Event) -> (out: Vec<u8>)
    ensures
        out@ == event_frame(e@),
{
    let mut out: Vec<u8> = Vec::new();
    match e {
        Event::Connect { ok, error } => {
            text::push_ev_connect_pre(&mut out);
            if *ok {
                text::push_lit_true(&mut out);
            } else {
                text::push_lit_false(&mut out);
            }
            text::push_error_key(&mut out);
            push_opt_text(&mut out, error);
            out.push(125);
        },
        Event::Disconnect { reason } => {
            text::push_ev_disconnect_pre(&mut out);
            push_opt_text(&mut out, reason);
            out.push(125);
        },
        Event::Error { message } => {
            text::push_ev_error_pre(&mut out);
            push_escaped(&mut out, message.as_slice());
            out.push(34);
            out.push(125);
        },
    }
    proof {
        assert(out@ =~= event_frame(e@));
    }
    out
}

/// Scans a JSON string body (the bytes after the opening quote): yields the
/// unescaped content and the bytes after the closing quote. Only the quote
/// and backslash escapes are recognized; a lone or unknown backslash escape,
/// or a missing closing quote, is malformed.
pub open spec fn scan_text(s: Seq<u8>) -> Option<(Seq<u8>, Seq<u8>)>
    decreases s.len(),
{
    if s.len() == 0 {
        None
    } else if s[0] == 34 {
        Some((Seq::empty(), s.drop_first()))
    } else if s[0] == 92 {
        if s.len() >= 2 && (s[1] == 34 || s[1] == 92) {
            scan_cont(seq![s[1]], scan_text(s.subrange(2, s.len() as int)))
        } else {
            None
        }
    } else {
        scan_cont(seq![s[0]], scan_text(s.drop_first()))
    }
}

/// Prepends already-scanned content to the outcome of scanning the rest.
pub open spec fn scan_cont(acc: Seq<u8>, r: Option<(Seq<u8>, Seq<u8>)>) -> Option<
    (Seq<u8>, Seq<u8>),
> {
    match r {
        Some(p) => Some((acc + p.0, p.1)),
        None => None,
    }
}

/// Whether a byte is a decimal digit.
pub open spec fn is_digit(b: u8) -> bool {
    48 <= b <= 57
}

/// The value of a sequence of decimal digits, most significant first.
pub open spec fn digits_val(s: Seq<u8>) -> int
    decreases s.len(),
{
    if s.len() == 0 {
        0
    } else {
        digits_val(s.drop_last()) * 10 + s.last() - 48
    }
}

/// Ten to the power `k`.
pub open spec fn pow10(k: nat) -> int
    decreases k,
{
    if k == 0 {
        1
    } else {
        10 * pow10((k - 1) as nat)
    }
}

/// A sequence of `k` decimal digits has a value below ten to the `k`.
pub proof fn lemma_digits_val_bound(s: Seq<u8>)
    requires
        forall|k: int| 0 <= k < s.len() ==> is_digit(s[k]),
    ensures
        0 <= digits_val(s) < pow10(s.len()),
    decreases s.len(),
{
    if s.len() == 0 {
    } else {
        assert(forall|k: int|
            0 <= k < s.drop_last().len() ==> is_digit(#[trigger] s.drop_last()[k]));
        lemma_digits_val_bound(s.drop_last());
        assert(is_digit(s.last()));
        assert(pow10(s.len()) == 10 * pow10((s.len() - 1) as nat));
    }
}

/// Parses a port number: one to five decimal digits, no leading zero unless
/// the number is zero itself, value at most 65535.
pub open spec fn parse_port(s: Seq<u8>) -> Option<u16> {
    if 1 <= s.len() <= 5 && (forall|i: int| 0 <= i < s.len() ==> is_digit(s[i])) && (s[0] != 48
        || s.len() == 1) && digits_val(s) <= 65535 {
        Some(digits_val(s) as u16)
    } else {
        None
    }
}

/// Parses a control command frame. A frame is either
/// `{"type":"connect","host":"H","port":P}` with `H` a JSON string and `P` a
/// port number, or exactly `{"type":"disconnect"}`; anything else is
/// malformed.
pub open spec fn parse_cmd(s: Seq<u8>) -> Option<CmdModel> {
    if s.len() >= 9 && s.subrange(0, 9) == text::cmd_pre() {
        let rest = s.subrange(9, s.len() as int);
        if rest.len() >= 17 && rest.subrange(0, 17) == text::connect_mid() {
            match scan_text(rest.subrange(17, rest.len() as int)) {
                Some(p) => {
                    let host = p.0;
                    let after = p.1;
                    if after.len() >= 9 && after.subrange(0, 8) == text::port_key() && after.last()
                        == 125 {
                        match parse_port(after.subrange(8, after.len() - 1)) {
                            Some(port) => Some(CmdModel::Connect { host, port }),
                            None => None,
                        }
                    } else {
                        None
                    }
                },
                None => None,
            }
        } else if rest == text::disconnect_tail() {
            Some(CmdModel::Disconnect)
        } else {
            None
        }
    } else {
        None
    }
}

/// The exact frame bytes of a connect command whose host needs no escaping.
pub open spec fn connect_cmd_frame(host: Seq<u8>, port: u16) -> Seq<u8> {
    text::cmd_pre() + text::connect_mid() + host + seq![34u8] + text::port_key() + dec(
        port as nat,
    ) + seq![125u8]
}

/// A host text that passes through a JSON string unescaped.
pub open spec fn plain_host(host: Seq<u8>) -> bool {
    forall|k: int| 0 <= k < host.len() ==> host[k] != 34 && host[k] != 92
}

/// Scanning a string of plain bytes stops at its closing quote and hands the
/// bytes back exactly.
proof fn lemma_scan_plain(host: Seq<u8>, rest: Seq<u8>)
    requires
        plain_host(host),
    ensures
        scan_text(host + seq![34u8] + rest) == Some((host, rest)),
    decreases host.len(),
{
    let s = host + seq![34u8] + rest;
    if host.len() == 0 {
        assert(s[0] == 34);
        assert(s.drop_first() =~= rest);
        assert(Seq::<u8>::empty() =~= host);
    } else {
        assert(s[0] == host[0]);
        assert(s.drop_first() =~= host.drop_first() + seq![34u8] + rest);
        lemma_scan_plain(host.drop_first(), rest);
        assert(seq![host[0]] + host.drop_first() =~= host);
    }
}

/// The decimal digits of a number parse back to it: every byte is a digit,
/// the first is zero only for the number zero itself, and the value is the
/// number.
proof fn lemma_dec_props(n: nat)
    ensures
        dec(n).len() >= 1,
        forall|k: int| 0 <= k < dec(n).len() ==> is_digit(#[trigger] dec(n)[k]),
        digits_val(dec(n)) == n,
        n >= 1 ==> dec(n)[0] != 48,
    decreases n,
{
    assert(digits_val(Seq::<u8>::empty()) == 0);
    if n < 10 {
        assert(dec(n) =~= seq![(48 + n) as u8]);
        assert(dec(n).drop_last() =~= Seq::<u8>::empty());
        assert(dec(n).last() == (48 + n) as u8);
        assert(digits_val(dec(n)) == digits_val(Seq::<u8>::empty()) * 10 + ((48 + n) as u8) - 48);
    } else {
        lemma_dec_props(n / 10);
        let d = (48 + n % 10) as u8;
        assert(dec(n) == dec(n / 10) + seq![d]);
        assert(dec(n).drop_last() =~= dec(n / 10));
        assert(dec(n).last() == d);
        assert(digits_val(dec(n)) == digits_val(dec(n / 10)) * 10 + d - 48);
        assert(dec(n)[0] == dec(n / 10)[0]);
    }
}

/// A number below ten to the `k` has at most `k` decimal digits.
proof fn lemma_dec_len(n: nat, k: nat)
    requires
        k >= 1,
        n < pow10(k),
    ensures
        dec(n).len() <= k,
    decreases n,
{
    if n < 10 {
    } else {
        assert(pow10(k) == 10 * pow10((k - 1) as nat));
        if k == 1 {
            assert(pow10(0nat) == 1);
            assert(false);
        }
        lemma_dec_len(n / 10, (k - 1) as nat);
    }
}

/// A well-formed connect frame parses to its connect command: the command
/// grammar accepts every frame this shape builds.
pub proof fn lemma_connect_frame_parses(host: Seq<u8>, port: u16)
    requires
        plain_host(host),
    ensures
        parse_cmd(connect_cmd_frame(host, port)) == Some(CmdModel::Connect { host, port }),
{
    let digits = dec(port as nat);
    let after = text::port_key() + digits + seq![125u8];
    let s = connect_cmd_frame(host, port);
    lemma_dec_props(port as nat);
    assert(pow10(0nat) == 1);
    assert(pow10(1nat) == 10);
    assert(pow10(2nat) == 100);
    assert(pow10(3nat) == 1000);
    assert(pow10(4nat) == 10000);
    assert(pow10(5nat) == 100000);
    lemma_dec_len(port as nat, 5);

    assert(s.len() >= 9);
    assert(s.subrange(0, 9) =~= text::cmd_pre());
    let rest = s.subrange(9, s.len() as int);
    assert(rest.len() >= 17);
    assert(rest.subrange(0, 17) =~= text::connect_mid());
    assert(rest.subrange(17, rest.len() as int) =~= host + seq![34u8] + after);
    lemma_scan_plain(host, after);
    assert(scan_text(rest.subrange(17, rest.len() as int)) == Some((host, after)));

    assert(after.len() >= 9);
    assert(after.subrange(0, 8) =~= text::port_key());
    assert(after.last() == 125);
    assert(after.subrange(8, after.len() - 1) =~= digits);
    assert(parse_port(digits) == Some(port));
}

/// The disconnect frame parses to the disconnect command.
pub proof fn lemma_disconnect_frame_parses()
    ensures
        parse_cmd(text::cmd_pre() + text::disconnect_tail()) == Some(CmdModel::Disconnect),
{
    let s = text::cmd_pre() + text::disconnect_tail();
    assert(s.subrange(0, 9) =~= text::cmd_pre());
    let rest = s.subrange(9, s.len() as int);
    assert(rest =~= text::disconnect_tail());
    assert(rest.len() < 17);
}

/// Whether the bytes of `pat` stand in `s` at position `i`.
fn match_at(s: &[u8], i: usize, pat: &[u8]) -> (r: bool)
    requires
        i <= s@.len(),
    ensures
        r == (i + pat@.len() <= s@.len() && s@.subrange(i as int, i + pat@.len()) == pat@),
{
    let m: usize = pat.len();
    let n: usize = s.len();
    if n - i < m {
        return false;
    }
    let mut j: usize = 0;
    while j < m
        invariant
            m == pat@.len(),
            n == s@.len(),
            i + m <= n,
            j <= m,
            forall|k: int| 0 <= k < j ==> s@[i + k] == pat@[k],
        decreases m - j,
    {
        if s[i + j] != pat[j] {
            proof {
                assert(s@.subrange(i as int, i + pat@.len())[j as int] != pat@[j as int]);
            }
            return false;
        }
        j = j + 1;
    }
    proof {
        assert(s@.subrange(i as int, i + pat@.len()) =~= pat@);
    }
    true
}

/// Scans a JSON string body in `s` starting at `start`: on success hands back
/// the unescaped content and the position after the closing quote.
fn scan_text_at(s: &[u8], start: usize) -> (r: Option<(Vec<u8>, usize)>)
    requires
        start <= s@.len(),
    ensures
        match r {
            Some(p) => p.1 <= s@.len() && scan_text(s@.subrange(start as int, s@.len() as int))
                == Some((p.0@, s@.subrange(p.1 as int, s@.len() as int))),
            None => scan_text(s@.subrange(start as int, s@.len() as int)) is None,
        },
{
    let ghost s0 = s@.subrange(start as int, s@.len() as int);
    let n: usize = s.len();
    let mut out: Vec<u8> = Vec::new();
    let mut i: usize = start;
    loop
        invariant
            n == s@.len(),
            start <= i <= n,
            s0 == s@.subrange(start as int, n as int),
            scan_text(s0) == scan_cont(out@, scan_text(s@.subrange(i as int, n as int))),
        decreases n - i,
    {
        let ghost cur = s@.subrange(i as int, n as int);
        if i == n {
            proof {
                assert(cur =~= Seq::<u8>::empty());
            }
            return None;
        }
        let b: u8 = s[i];
        assert(b == cur[0]);
        if b == 34 {
            proof {
                assert(cur.drop_first() =~= s@.subrange(i as int + 1, n as int));
                assert(out@ + Seq::<u8>::empty() =~= out@);
            }
            return Some((out, i + 1));
        } else if b == 92 {
            if i + 1 == n {
                return None;
            }
            let c: u8 = s[i + 1];
            assert(c == cur[1]);
            if c == 34 || c == 92 {
                proof {
                    assert(cur.subrange(2, cur.len() as int) =~= s@.subrange(
                        i as int + 2,
                        n as int,
                    ));
                    let nxt = scan_text(s@.subrange(i as int + 2, n as int));
                    assert(scan_text(cur) == scan_cont(seq![c], nxt));
                    match nxt {
                        Some(p) => {
                            assert(out@ + (seq![c] + p.0) =~= out@.push(c) + p.0);
                        },
                        None => {},
                    }
                }
                out.push(c);
                i = i + 2;
            } else {
                return None;
            }
        } else {
            proof {
                assert(cur.drop_first() =~= s@.subrange(i as int + 1, n as int));
                let nxt = scan_text(s@.subrange(i as int + 1, n as int));
                assert(scan_text(cur) == scan_cont(seq![b], nxt));
                match nxt {
                    Some(p) => {
                        assert(out@ + (seq![b] + p.0) =~= out@.push(b) + p.0);
                    },
                    None => {},
                }
            }
            out.push(b);
            i = i + 1;
        }
    }
}

/// Parses the port digits standing in `s` from `start` to `end`.
fn parse_port_at(s: &[u8], start: usize, end: usize) -> (r: Option<u16>)
    requires
        start <= end <= s@.len(),
    ensures
        r == parse_port(s@.subrange(start as int, end as int)),
{
    let ghost d = s@.subrange(start as int, end as int);
    let len: usize = end - start;
    if len < 1 || len > 5 {
        return None;
    }
    if len > 1 && s[start] == 48 {
        return None;
    }
    let mut val: u32 = 0;
    let mut i: usize = 0;
    while i < len
        invariant
            d == s@.subrange(start as int, end as int),
            start <= end <= s@.len(),
            len == end - start,
            1 <= len <= 5,
            i <= len,
            forall|k: int| 0 <= k < i ==> is_digit(d[k]),
            val == digits_val(d.subrange(0, i as int)),
        decreases len - i,
    {
        let b: u8 = s[start + i];
        assert(b == d[i as int]);
        if b < 48 || b > 57 {
            return None;
        }
        proof {
            let pre = d.subrange(0, i as int);
            lemma_digits_val_bound(pre);
            assert(pow10(0) == 1);
            assert(pow10(1) == 10);
            assert(pow10(2) == 100);
            assert(pow10(3) == 1000);
            assert(pow10(4) == 10000);
            assert(pow10(pre.len()) <= 10000);
            let now = d.subrange(0, i as int + 1);
            assert(now.drop_last() =~= pre);
            assert(now.last() == d[i as int]);
        }
        val = val * 10 + (b - 48) as u32;
        i = i + 1;
    }
    proof {
        assert(d.subrange(0, len as int) =~= d);
    }
    if val > 65535 {
        return None;
    }
    Some(val as u16)
}

/// Parses a control command frame; `None` means the input is malformed.
pub fn parse_command(s: &[u8]) -> (r: Option<Command>)
    ensures
        match r {
            Some(c) => parse_cmd(s@) == Some(c@),
            None => parse_cmd(s@) is None,
        },
{
    let ghost rest = s@.subrange(9, s@.len() as int);
    let pre: [u8; 9] = [123, 34, 116, 121, 112, 101, 34, 58, 34];
    proof {
        assert(pre@ =~= text::cmd_pre());
    }
    if !match_at(s, 0, pre.as_slice()) {
        proof {
            if s@.len() >= 9 {
                assert(s@.subrange(0, 9) =~= s@.subrange(0int, 0 + pre@.len() as int));
            }
        }
        return None;
    }
    assert(s@.subrange(0, 9) == text::cmd_pre());
    let mid: [u8; 17] = [99, 111, 110, 110, 101, 99, 116, 34, 44, 34, 104, 111, 115, 116, 34, 58,
        34];
    proof {
        assert(mid@ =~= text::connect_mid());
    }
    if match_at(s, 9, mid.as_slice()) {
        proof {
            assert(rest.subrange(0, 17) =~= s@.subrange(9int, 9 + mid@.len() as int));
            assert(rest.len() >= 17);
            assert(rest.subrange(17, rest.len() as int) =~= s@.subrange(26, s@.len() as int));
        }
        match scan_text_at(s, 26) {
            Some((host, j)) => {
                let ghost after = s@.subrange(j as int, s@.len() as int);
                let pk: [u8; 8] = [44, 34, 112, 111, 114, 116, 34, 58];
                proof {
                    assert(pk@ =~= text::port_key());
                }
                let n: usize = s.len();
                if match_at(s, j, pk.as_slice()) && j + 8 < n && s[n - 1] == 125 {
                    proof {
                        assert(after.subrange(0, 8) =~= s@.subrange(j as int, j + pk@.len() as int));
                        assert(after.len() >= 9);
                        assert(after.last() == s@[n - 1]);
                        assert(after.subrange(8, after.len() - 1) =~= s@.subrange(
                            j + 8,
                            n as int - 1,
                        ));
                    }
                    match parse_port_at(s, j + 8, n - 1) {
                        Some(port) => Some(Command::Connect { host, port }),
                        None => None,
                    }
                } else {
                    proof {
                        if after.len() >= 9 {
                            assert(after.subrange(0, 8) =~= s@.subrange(j as int, j + pk@.len() as int));
                            assert(after.last() == s@[n as int - 1]);
                        }
                    }
                    None
                }
            },
            None => None,
        }
    } else {
        let tail: [u8; 12] = [100, 105, 115, 99, 111, 110, 110, 101, 99, 116, 34, 125];
        proof {
            assert(tail@ =~= text::disconnect_tail());
            if rest.len() >= 17 {
                assert(rest.subrange(0, 17) =~= s@.subrange(9int, 9 + 17int));
            }
        }
        if match_at(s, 9, tail.as_slice()) && s.len() == 21 {
            proof {
                assert(rest =~= s@.subrange(9int, 9 + tail@.len() as int));
            }
            Some(Command::Disconnect)
        } else {
            proof {
                if s@.len() == 21 {
                    assert(rest =~= s@.subrange(9int, 9 + tail@.len() as int));
                } else {
                    assert(rest.len() != 12);
                }
                assert(rest != text::disconnect_tail());
            }
            None
        }
    }
}

} // verus!
