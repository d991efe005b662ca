//! The forwarder's protocols: reading an HTTP CONNECT request, and the SOCKS5
//! handshake that offers nothing but username authentication.

use crate::text::{
    behind_last, char_index, chars_of, decimal_text, hex_digit, index_of_char, is_space,
    is_space_char, join2, join3, number_text, owned, parse_number, parse_unsigned, push_text, quote,
    quoted, same_text, string_from_utf8, substring, texts, utf8_complaint, utf8_problem,
};
use crate::ytdlp::{first_line, read_first_line};
use vstd::prelude::*;
use vstd::utf8::{decode_utf8, encode_utf8, valid_utf8};

verus! {

// ---------------------------------------------------------------------------
// Errors
// ---------------------------------------------------------------------------

/// Why a forwarded connection failed.
#[derive(Debug, Clone)]
pub enum SocksError {
    /// The CONNECT request does not fit the buffer.
    RequestTooLarge,
    /// The client went away before the request was complete.
    ClientGone,
    /// The CONNECT request is not text, for this reason.
    RequestNotText(String),
    /// The first line is no CONNECT request.
    InvalidRequest(String),
    /// The target has no port.
    NoPort(String),
    /// The port of the target is no number.
    InvalidPort(String),
    /// The server does not speak SOCKS5.
    NotSocks5(u8),
    /// The server chose another authentication method.
    WrongMethod(u8),
    /// The user name does not fit its field.
    UsernameTooLong,
    /// The server refused the user name.
    AuthRejected(u8),
    /// The host name, of so many bytes, does not fit its field.
    HostTooLong(usize),
    /// The reply to the request has another version.
    ReplyVersion(u8),
    /// The server could not connect.
    ConnectFailed(u8),
    /// The reply has an unknown kind of address.
    UnknownAddressType(u8),
}

/// Mathematical counterpart of [`SocksError`].
pub enum SocksFault {
    RequestTooLarge,
    ClientGone,
    RequestNotText(Seq<char>),
    InvalidRequest(Seq<char>),
    NoPort(Seq<char>),
    InvalidPort(Seq<char>),
    NotSocks5(u8),
    WrongMethod(u8),
    UsernameTooLong,
    AuthRejected(u8),
    HostTooLong(nat),
    ReplyVersion(u8),
    ConnectFailed(u8),
    UnknownAddressType(u8),
}

impl View for SocksError {
    type V = SocksFault;

    open spec fn view(&self) -> SocksFault {
        match self {
            SocksError::RequestTooLarge => SocksFault::RequestTooLarge,
            SocksError::ClientGone => SocksFault::ClientGone,
            SocksError::RequestNotText(t) => SocksFault::RequestNotText(t@),
            SocksError::InvalidRequest(t) => SocksFault::InvalidRequest(t@),
            SocksError::NoPort(t) => SocksFault::NoPort(t@),
            SocksError::InvalidPort(t) => SocksFault::InvalidPort(t@),
            SocksError::NotSocks5(b) => SocksFault::NotSocks5(*b),
            SocksError::WrongMethod(b) => SocksFault::WrongMethod(*b),
            SocksError::UsernameTooLong => SocksFault::UsernameTooLong,
            SocksError::AuthRejected(b) => SocksFault::AuthRejected(*b),
            SocksError::HostTooLong(n) => SocksFault::HostTooLong(*n as nat),
            SocksError::ReplyVersion(b) => SocksFault::ReplyVersion(*b),
            SocksError::ConnectFailed(b) => SocksFault::ConnectFailed(*b),
            SocksError::UnknownAddressType(b) => SocksFault::UnknownAddressType(*b),
        }
    }
}

/// The meaning of a SOCKS5 reply code.
pub open spec fn reply_name(code: u8) -> Seq<char> {
    match code {
        0 => "succeeded"@,
        1 => "general SOCKS server failure"@,
        2 => "connection not allowed by ruleset"@,
        3 => "network unreachable"@,
        4 => "host unreachable"@,
        5 => "connection refused"@,
        6 => "TTL expired"@,
        7 => "command not supported"@,
        8 => "address type not supported"@,
        _ => "unknown"@,
    }
}

/// Human-readable SOCKS5 reply code.
pub fn socks5_reply_name(code: u8) -> (r: &'static str)
    ensures
        r@ == reply_name(code),
{
    match code {
        0 => "succeeded",
        1 => "general SOCKS server failure",
        2 => "connection not allowed by ruleset",
        3 => "network unreachable",
        4 => "host unreachable",
        5 => "connection refused",
        6 => "TTL expired",
        7 => "command not supported",
        8 => "address type not supported",
        _ => "unknown",
    }
}

fn write_hex_digit(n: u8) -> (r: char)
    requires
        n < 16,
    ensures
        r == hex_digit(n),
{
    if n < 10 {
        (48 + n) as char
    } else {
        (97 + (n - 10)) as char
    }
}

/// How an error reads.
pub open spec fn socks_fault_text(fault: SocksFault) -> Seq<char> {
    match fault {
        SocksFault::RequestTooLarge => "CONNECT request too large"@,
        SocksFault::ClientGone => "client disconnected before sending CONNECT"@,
        SocksFault::RequestNotText(cause) => "CONNECT request not UTF-8: "@ + cause,
        SocksFault::InvalidRequest(line) => "invalid CONNECT request: "@ + quoted(line),
        SocksFault::NoPort(target) => "no port in CONNECT target: "@ + target,
        SocksFault::InvalidPort(target) => "invalid port in CONNECT target: "@ + target,
        SocksFault::NotSocks5(b) => "not SOCKS5: version "@ + decimal_text(b as nat),
        SocksFault::WrongMethod(b) =>
        "SOCKS5: expected username/password auth (0x02), got 0x"@.push(hex_digit(b / 16)).push(
            hex_digit(b % 16),
        ),
        SocksFault::UsernameTooLong => "SOCKS5 username too long"@,
        SocksFault::AuthRejected(b) => "SOCKS5 auth rejected: status "@ + decimal_text(b as nat),
        SocksFault::HostTooLong(n) => "hostname too long: "@ + decimal_text(n) + " bytes"@,
        SocksFault::ReplyVersion(b) => "SOCKS5 reply version "@ + decimal_text(b as nat),
        SocksFault::ConnectFailed(b) => "SOCKS5 CONNECT failed: status "@ + decimal_text(b as nat)
            + " ("@ + reply_name(b) + ")"@,
        SocksFault::UnknownAddressType(b) => "SOCKS5 unknown ATYP "@ + decimal_text(b as nat),
    }
}

impl SocksError {
    /// How the error reads.
    pub fn message(&self) -> (r: String)
        ensures
            r@ == socks_fault_text(self@),
    {
        match self {
            SocksError::RequestTooLarge => owned("CONNECT request too large"),
            SocksError::ClientGone => owned("client disconnected before sending CONNECT"),
            SocksError::RequestNotText(cause) => join2(
                "CONNECT request not UTF-8: ",
                cause.as_str(),
            ),
            SocksError::InvalidRequest(line) => join2(
                "invalid CONNECT request: ",
                quote(line.as_str()).as_str(),
            ),
            SocksError::NoPort(target) => join2("no port in CONNECT target: ", target.as_str()),
            SocksError::InvalidPort(target) => join2(
                "invalid port in CONNECT target: ",
                target.as_str(),
            ),
            SocksError::NotSocks5(b) => join2(
                "not SOCKS5: version ",
                number_text(*b as u64).as_str(),
            ),
            SocksError::WrongMethod(b) => {
                let mut r = owned("SOCKS5: expected username/password auth (0x02), got 0x");
                r.push(write_hex_digit(*b / 16));
                r.push(write_hex_digit(*b % 16));
                r
            },
            SocksError::UsernameTooLong => owned("SOCKS5 username too long"),
            SocksError::AuthRejected(b) => join2(
                "SOCKS5 auth rejected: status ",
                number_text(*b as u64).as_str(),
            ),
            SocksError::HostTooLong(n) => join3(
                "hostname too long: ",
                number_text(*n as u64).as_str(),
                " bytes",
            ),
            SocksError::ReplyVersion(b) => join2(
                "SOCKS5 reply version ",
                number_text(*b as u64).as_str(),
            ),
            SocksError::ConnectFailed(b) => {
                let mut r = join3(
                    "SOCKS5 CONNECT failed: status ",
                    number_text(*b as u64).as_str(),
                    " (",
                );
                push_text(&mut r, socks5_reply_name(*b));
                push_text(&mut r, ")");
                r
            },
            SocksError::UnknownAddressType(b) => join2(
                "SOCKS5 unknown ATYP ",
                number_text(*b as u64).as_str(),
            ),
        }
    }
}

// ---------------------------------------------------------------------------
// Targets
// ---------------------------------------------------------------------------

/// `s` without leading colons.
pub open spec fn without_colons(s: Seq<char>) -> Seq<char>
    decreases s.len(),
{
    if s.len() > 0 && s[0] == ':' {
        without_colons(s.skip(1))
    } else {
        s
    }
}

/// A host with the port that a text writes.
pub open spec fn with_port(target: Seq<char>, host: Seq<char>, port: Seq<char>) -> Result<
    (Seq<char>, u16),
    SocksFault,
> {
    match parse_unsigned(port, u16::MAX as nat) {
        Some(n) => Ok((host, n as u16)),
        None => Err(SocksFault::InvalidPort(target)),
    }
}

/// Host and port of a target: a bracketed host with what follows its colons,
/// else the parts around the last colon.
pub open spec fn host_and_port(target: Seq<char>) -> Result<(Seq<char>, u16), SocksFault> {
    let close = char_index(target, ']', 0);
    let behind = behind_last(target, ':', target.len() as int);
    if close < target.len() {
        with_port(target, target.take(close + 1), without_colons(target.skip(close + 1)))
    } else if behind > 0 {
        with_port(target, target.take(behind - 1), target.skip(behind))
    } else {
        Err(SocksFault::NoPort(target))
    }
}

fn read_with_port(target: &str, host: String, port: &str) -> (r: Result<(String, u16), SocksError>)
    ensures
        match with_port(target@, host@, port@) {
            Ok((h, p)) => r matches Ok((rh, rp)) && rh@ == h && rp == p,
            Err(fault) => r matches Err(e) && e@ == fault,
        },
{
    match parse_number(port, u16::MAX as u64) {
        Some(n) => Ok((host, n as u16)),
        None => Err(SocksError::InvalidPort(owned(target))),
    }
}

/// Parse host and port from a CONNECT request target.
pub fn parse_host_port(target: &str) -> (r: Result<(String, u16), SocksError>)
    ensures
        match host_and_port(target@) {
            Ok((host, port)) => r matches Ok((h, p)) && h@ == host && p == port,
            Err(fault) => r matches Err(e) && e@ == fault,
        },
{
    let v = chars_of(target);
    let total: usize = v.len();
    let close: usize = index_of_char(&v, ']', 0);
    if close < total {
        let host = substring(&v, 0, close + 1);
        assert(host@ =~= target@.take(close + 1));
        let mut i: usize = close + 1;
        while i < total && v[i] == ':'
            invariant
                close < i <= total == v@.len(),
                v@ == target@,
                without_colons(target@.skip(close + 1)) == without_colons(target@.skip(i as int)),
            decreases total - i,
        {
            assert(target@.skip(i as int).skip(1) =~= target@.skip(i + 1));
            i = i + 1;
        }
        let port = substring(&v, i, total);
        assert(port@ =~= target@.skip(i as int));
        return read_with_port(target, host, port.as_str());
    }
    let mut i: usize = total;
    while i > 0 && v[i - 1] != ':'
        invariant
            i <= total == v@.len(),
            v@ == target@,
            behind_last(target@, ':', total as int) == behind_last(target@, ':', i as int),
        decreases i,
    {
        i = i - 1;
    }
    if i == 0 {
        return Err(SocksError::NoPort(owned(target)));
    }
    let host = substring(&v, 0, i - 1);
    let port = substring(&v, i, total);
    assert(host@ =~= target@.take(i - 1));
    assert(port@ =~= target@.skip(i as int));
    read_with_port(target, host, port.as_str())
}

// ---------------------------------------------------------------------------
// CONNECT requests
// ---------------------------------------------------------------------------

/// Size of the buffer for a CONNECT request.
pub const REQUEST_LIMIT: usize = 4096;

/// Whether a request is complete: it ends with an empty line.
pub open spec fn request_complete(bytes: Seq<u8>) -> bool {
    bytes.len() >= 4 && bytes.skip(bytes.len() - 4) == seq![13u8, 10u8, 13u8, 10u8]
}

/// What to do after reading from a client.
pub enum RequestState {
    /// Read on.
    Incomplete,
    /// The request is complete.
    Complete,
    /// Give up.
    Failed(SocksError),
}

/// Decides whether to read on, after `received` bytes were added to `request`.
pub fn request_progress(request: &[u8], received: usize) -> (r: RequestState)
    ensures
        match r {
            RequestState::Failed(e) => if received == 0 {
                e@ == SocksFault::ClientGone
            } else {
                !request_complete(request@) && request@.len() >= REQUEST_LIMIT && e@
                    == SocksFault::RequestTooLarge
            },
            RequestState::Complete => received > 0 && request_complete(request@),
            RequestState::Incomplete => received > 0 && !request_complete(request@)
                && request@.len() < REQUEST_LIMIT,
        },
{
    if received == 0 {
        return RequestState::Failed(SocksError::ClientGone);
    }
    let n: usize = request.len();
    if n >= 4 && request[n - 4] == 13 && request[n - 3] == 10 && request[n - 2] == 13 && request[n
        - 1] == 10 {
        assert(request@.skip(n - 4) =~= seq![13u8, 10u8, 13u8, 10u8]);
        return RequestState::Complete;
    }
    assert(!request_complete(request@)) by {
        if request_complete(request@) {
            let tail = request@.skip(n - 4);
            assert(tail[0] == 13 && tail[1] == 10 && tail[2] == 13 && tail[3] == 10);
        }
    }
    if n >= REQUEST_LIMIT {
        RequestState::Failed(SocksError::RequestTooLarge)
    } else {
        RequestState::Incomplete
    }
}

/// The words of the first `n` characters: what stands between white space. A
/// word that reaches up to `n` is counted.
pub open spec fn words(s: Seq<char>, n: int) -> Seq<Seq<char>>
    decreases n,
{
    if n <= 0 || n > s.len() {
        Seq::empty()
    } else if is_space(s[n - 1]) {
        words(s, n - 1)
    } else if n == 1 || is_space(s[n - 2]) {
        words(s, n - 1).push(seq![s[n - 1]])
    } else {
        let before = words(s, n - 1);
        before.drop_last().push(before.last().push(s[n - 1]))
    }
}

/// The words of a text.
pub fn split_words(s: &str) -> (r: Vec<String>)
    ensures
        texts(r@) == words(s@, s@.len() as int),
{
    let v = chars_of(s);
    let mut r: Vec<String> = Vec::new();
    let mut i: usize = 0;
    assert(texts(r@) =~= words(s@, 0));
    while i < v.len()
        invariant
            i <= v@.len(),
            v@ == s@,
            texts(r@) == words(s@, i as int),
        decreases v.len() - i,
    {
        let c = v[i];
        if !is_space_char(c) {
            let ghost before = texts(r@);
            if i == 0 || is_space_char(v[i - 1]) {
                let mut word = String::new();
                word.push(c);
                assert(word@ =~= seq![c]);
                r.push(word);
                assert(texts(r@) =~= before.push(seq![c]));
            } else {
                proof {
                    lemma_words_filled(s@, i as int);
                    assert(before.len() == r@.len());
                    assert(before.last() == r@.last()@);
                }
                let last = r.pop();
                match last {
                    Some(mut word) => {
                        let ghost head = word@;
                        word.push(c);
                        r.push(word);
                        assert(texts(r@) =~= before.drop_last().push(head.push(c)));
                    },
                    None => {},
                }
            }
        }
        i = i + 1;
    }
    r
}

proof fn lemma_words_filled(s: Seq<char>, n: int)
    requires
        0 < n <= s.len(),
        !is_space(s[n - 1]),
    ensures
        words(s, n).len() > 0,
    decreases n,
{
    if n > 1 && !is_space(s[n - 2]) {
        lemma_words_filled(s, n - 1);
    }
}

/// The target of a complete request: the second of at least three words in a
/// first line that begins with `CONNECT`.
pub open spec fn request_target(bytes: Seq<u8>) -> Result<Seq<char>, SocksFault> {
    if !valid_utf8(bytes) {
        Err(SocksFault::RequestNotText(utf8_complaint(bytes)))
    } else {
        let line = match first_line(decode_utf8(bytes)) {
            Some(l) => l,
            None => ""@,
        };
        let parts = words(line, line.len() as int);
        if parts.len() >= 3 && parts[0] == "CONNECT"@ {
            Ok(parts[1])
        } else {
            Err(SocksFault::InvalidRequest(line))
        }
    }
}

/// Reads the target of a complete CONNECT request.
pub fn parse_connect_request(bytes: Vec<u8>) -> (r: Result<String, SocksError>)
    ensures
        match request_target(bytes@) {
            Ok(target) => r matches Ok(t) && t@ == target,
            Err(fault) => r matches Err(e) && e@ == fault,
        },
{
    match utf8_problem(bytes.as_slice()) {
        Some(cause) => {
            return Err(SocksError::RequestNotText(cause));
        },
        None => {},
    }
    let text = match string_from_utf8(bytes) {
        Some(text) => text,
        None => String::new(),
    };
    let line = match read_first_line(text.as_str()) {
        Some(line) => line,
        None => owned(""),
    };
    let parts = split_words(line.as_str());
    let ghost all = texts(parts@);
    assert(all.len() == parts@.len());
    if parts.len() >= 3 {
        assert(all[0] == parts@[0]@);
        assert(all[1] == parts@[1]@);
        if same_text(parts[0].as_str(), "CONNECT") {
            return Ok(owned(parts[1].as_str()));
        }
    }
    Err(SocksError::InvalidRequest(line))
}

// ---------------------------------------------------------------------------
// Handshake
// ---------------------------------------------------------------------------

/// Where the handshake stands: what the next reply answers.
#[derive(Debug, Clone, Copy, PartialEq, Eq, Structural)]
pub enum SocksStage {
    /// The greeting was sent.
    Greeting,
    /// The user name was sent.
    Auth,
    /// The request was sent.
    Request,
    /// The length of a bound domain name follows.
    DomainLength,
    /// So many bytes of a bound address follow.
    Address(usize),
    /// The connection stands.
    Connected,
}

/// How many bytes of reply a stage waits for.
pub open spec fn awaited(stage: SocksStage) -> nat {
    match stage {
        SocksStage::Greeting => 2,
        SocksStage::Auth => 2,
        SocksStage::Request => 4,
        SocksStage::DomainLength => 1,
        SocksStage::Address(n) => n as nat,
        SocksStage::Connected => 0,
    }
}

/// The greeting: version 5, one method, username authentication.
pub open spec fn greeting() -> Seq<u8> {
    seq![5u8, 1u8, 2u8]
}

/// The authentication message: the user name and an empty password.
pub open spec fn auth_message(user: Seq<u8>) -> Seq<u8> {
    seq![1u8, user.len() as u8] + user + seq![0u8]
}

/// The request to connect to a host name, which the server resolves.
pub open spec fn connect_message(host: Seq<u8>, port: u16) -> Seq<u8> {
    seq![5u8, 1u8, 0u8, 3u8, host.len() as u8] + host + seq![(port / 256) as u8, (port % 256) as u8]
}

/// The next stage and the bytes to send, given the reply to a stage.
pub open spec fn handshake_step(
    host: Seq<char>,
    port: u16,
    user: Seq<char>,
    stage: SocksStage,
    reply: Seq<u8>,
) -> Result<(SocksStage, Seq<u8>), SocksFault> {
    let host_bytes = encode_utf8(host);
    let user_bytes = encode_utf8(user);
    match stage {
        SocksStage::Greeting => if reply[0] != 5 {
            Err(SocksFault::NotSocks5(reply[0]))
        } else if reply[1] != 2 {
            Err(SocksFault::WrongMethod(reply[1]))
        } else if user_bytes.len() > 255 {
            Err(SocksFault::UsernameTooLong)
        } else {
            Ok((SocksStage::Auth, auth_message(user_bytes)))
        },
        SocksStage::Auth => if reply[1] != 0 {
            Err(SocksFault::AuthRejected(reply[1]))
        } else if host_bytes.len() > 255 {
            Err(SocksFault::HostTooLong(host_bytes.len()))
        } else {
            Ok((SocksStage::Request, connect_message(host_bytes, port)))
        },
        SocksStage::Request => if reply[0] != 5 {
            Err(SocksFault::ReplyVersion(reply[0]))
        } else if reply[1] != 0 {
            Err(SocksFault::ConnectFailed(reply[1]))
        } else if reply[3] == 1 {
            Ok((SocksStage::Address(6), Seq::empty()))
        } else if reply[3] == 3 {
            Ok((SocksStage::DomainLength, Seq::empty()))
        } else if reply[3] == 4 {
            Ok((SocksStage::Address(18), Seq::empty()))
        } else {
            Err(SocksFault::UnknownAddressType(reply[3]))
        },
        SocksStage::DomainLength => Ok(
            (SocksStage::Address((reply[0] + 2) as usize), Seq::empty()),
        ),
        SocksStage::Address(_) => Ok((SocksStage::Connected, Seq::empty())),
        SocksStage::Connected => Ok((SocksStage::Connected, Seq::empty())),
    }
}

/// How many bytes of reply a stage waits for.
pub fn bytes_awaited(stage: SocksStage) -> (r: usize)
    ensures
        r == awaited(stage),
{
    match stage {
        SocksStage::Greeting => 2,
        SocksStage::Auth => 2,
        SocksStage::Request => 4,
        SocksStage::DomainLength => 1,
        SocksStage::Address(n) => n,
        SocksStage::Connected => 0,
    }
}

/// The greeting to send first.
pub fn socks5_greeting() -> (r: Vec<u8>)
    ensures
        r@ == greeting(),
{
    let r: Vec<u8> = vec![5u8, 1u8, 2u8];
    assert(r@ =~= greeting());
    r
}

fn push_bytes(out: &mut Vec<u8>, bytes: &[u8])
    ensures
        final(out)@ == old(out)@ + bytes@,
{
    let mut i: usize = 0;
    assert(out@ =~= old(out)@ + bytes@.take(0));
    while i < bytes.len()
        invariant
            i <= bytes@.len(),
            out@ == old(out)@ + bytes@.take(i as int),
        decreases bytes.len() - i,
    {
        out.push(bytes[i]);
        i = i + 1;
        assert(out@ =~= old(out)@ + bytes@.take(i as int));
    }
    assert(bytes@.take(bytes@.len() as int) =~= bytes@);
}

fn write_auth(user: &[u8]) -> (r: Vec<u8>)
    requires
        user@.len() <= 255,
    ensures
        r@ == auth_message(user@),
{
    let mut r: Vec<u8> = vec![1u8, user.len() as u8];
    push_bytes(&mut r, user);
    r.push(0);
    assert(r@ =~= auth_message(user@));
    r
}

fn write_connect(host: &[u8], port: u16) -> (r: Vec<u8>)
    requires
        host@.len() <= 255,
    ensures
        r@ == connect_message(host@, port),
{
    let mut r: Vec<u8> = vec![5u8, 1u8, 0u8, 3u8, host.len() as u8];
    push_bytes(&mut r, host);
    r.push((port / 256) as u8);
    r.push((port % 256) as u8);
    assert(r@ =~= connect_message(host@, port));
    r
}

/// Takes in the reply to a stage: the next stage and the bytes to send, or why
/// the handshake failed.
pub fn socks5_advance(host: &str, port: u16, username: &str, stage: SocksStage, reply: &[u8]) -> (r:
    Result<(SocksStage, Vec<u8>), SocksError>)
    requires
        reply@.len() == awaited(stage),
    ensures
        match handshake_step(host@, port, username@, stage, reply@) {
            Ok((next, bytes)) => r matches Ok((n, b)) && n == next && b@ == bytes,
            Err(fault) => r matches Err(e) && e@ == fault,
        },
{
    match stage {
        SocksStage::Greeting => {
            let user = username.as_bytes();
            if reply[0] != 5 {
                Err(SocksError::NotSocks5(reply[0]))
            } else if reply[1] != 2 {
                Err(SocksError::WrongMethod(reply[1]))
            } else if user.len() > 255 {
                Err(SocksError::UsernameTooLong)
            } else {
                Ok((SocksStage::Auth, write_auth(user)))
            }
        },
        SocksStage::Auth => {
            let name = host.as_bytes();
            if reply[1] != 0 {
                Err(SocksError::AuthRejected(reply[1]))
            } else if name.len() > 255 {
                Err(SocksError::HostTooLong(name.len()))
            } else {
                Ok((SocksStage::Request, write_connect(name, port)))
            }
        },
        SocksStage::Request => {
            let none: Vec<u8> = Vec::new();
            assert(none@ =~= Seq::empty());
            if reply[0] != 5 {
                Err(SocksError::ReplyVersion(reply[0]))
            } else if reply[1] != 0 {
                Err(SocksError::ConnectFailed(reply[1]))
            } else if reply[3] == 1 {
                Ok((SocksStage::Address(6), none))
            } else if reply[3] == 3 {
                Ok((SocksStage::DomainLength, none))
            } else if reply[3] == 4 {
                Ok((SocksStage::Address(18), none))
            } else {
                Err(SocksError::UnknownAddressType(reply[3]))
            }
        },
        SocksStage::DomainLength => {
            let none: Vec<u8> = Vec::new();
            assert(none@ =~= Seq::empty());
            Ok((SocksStage::Address(reply[0] as usize + 2), none))
        },
        _ => {
            let none: Vec<u8> = Vec::new();
            assert(none@ =~= Seq::empty());
            Ok((SocksStage::Connected, none))
        },
    }
}

// ---------------------------------------------------------------------------
// Laws
// ---------------------------------------------------------------------------

/// Nothing but username authentication is offered.
pub proof fn lemma_greeting_offers_only_username()
    ensures
        greeting().len() == 3,
        greeting()[1] == 1,
        greeting()[2] == 2,
{
}

/// The target is named to the server only after it took the user name: the
/// request goes out exactly as the answer to an accepted authentication.
pub proof fn lemma_request_follows_auth(
    host: Seq<char>,
    port: u16,
    user: Seq<char>,
    stage: SocksStage,
    reply: Seq<u8>,
)
    requires
        reply.len() == awaited(stage),
        handshake_step(host, port, user, stage, reply) is Ok,
        handshake_step(host, port, user, stage, reply)->Ok_0.0 == SocksStage::Request,
    ensures
        stage == SocksStage::Auth,
        reply[1] == 0,
        handshake_step(host, port, user, stage, reply)->Ok_0.1 == connect_message(
            encode_utf8(host),
            port,
        ),
{
}

/// The user name goes out exactly as the answer to a server that chose
/// username authentication.
pub proof fn lemma_username_always_sent(
    host: Seq<char>,
    port: u16,
    user: Seq<char>,
    reply: Seq<u8>,
)
    requires
        reply.len() == 2,
        handshake_step(host, port, user, SocksStage::Greeting, reply) is Ok,
    ensures
        reply == seq![5u8, 2u8],
        handshake_step(host, port, user, SocksStage::Greeting, reply)->Ok_0 == (
            SocksStage::Auth,
            auth_message(encode_utf8(user)),
        ),
{
    assert(reply =~= seq![5u8, 2u8]);
}

} // verus!
