//! Laws of the forwarder's protocols: what a CONNECT request asks for, and
//! what is said to the SOCKS5 server.

use crate::socks::{
    auth_message, awaited, connect_message, greeting, handshake_step, host_and_port, reply_name,
    request_complete, request_target, socks_fault_text, without_colons, words, SocksFault,
    SocksStage,
};
use crate::text::{
    all_digits, behind_last, char_index, decimal_text, decimal_value, hex_digit, is_digit, is_space,
    lemma_behind_last, lemma_char_index, quoted, utf8_complaint,
};
use crate::ytdlp::first_line;
use vstd::prelude::*;
use vstd::utf8::{decode_utf8, encode_utf8, valid_utf8};

verus! {

// ---------------------------------------------------------------------------
// Targets
// ---------------------------------------------------------------------------

/// A target written as host, colon and port is read as these.
pub proof fn law_target_read(host: Seq<char>, port: Seq<char>)
    requires
        forall|i: int| 0 <= i < host.len() ==> #[trigger] host[i] != ']',
        port.len() > 0,
        all_digits(port),
    ensures
        ({
            let target = host + ":"@ + port;
            &&& decimal_value(port) <= 65535 ==> host_and_port(target) == Ok::<
                (Seq<char>, u16),
                SocksFault,
            >((host, decimal_value(port) as u16))
            &&& decimal_value(port) > 65535 ==> host_and_port(target) == Err::<
                (Seq<char>, u16),
                SocksFault,
            >(SocksFault::InvalidPort(target))
        }),
{
    reveal_strlit(":");
    let target = host + ":"@ + port;
    let n = target.len() as int;
    lemma_char_index(target, ']', 0);
    let close = char_index(target, ']', 0);
    if close < n {
        if close > host.len() {
            assert(is_digit(port[close - host.len() - 1]));
        }
    }
    lemma_behind_last(target, ':', n);
    let behind = behind_last(target, ':', n);
    assert(target[host.len() as int] == ':');
    if behind > host.len() + 1 {
        assert(is_digit(port[behind - 1 - host.len() - 1]));
    }
    assert(behind == host.len() + 1);
    assert(target.take(behind - 1) =~= host);
    assert(target.skip(behind) =~= port);
    assert(is_digit(port[0]));
}

/// A bracketed host keeps its brackets, and the port stands behind them.
pub proof fn law_bracketed_target_read(inner: Seq<char>, port: Seq<char>)
    requires
        forall|i: int| 0 <= i < inner.len() ==> #[trigger] inner[i] != ']',
        port.len() > 0,
        all_digits(port),
        decimal_value(port) <= 65535,
    ensures
        host_and_port("["@ + inner + "]:"@ + port) == Ok::<(Seq<char>, u16), SocksFault>(
            ("["@ + inner + "]"@, decimal_value(port) as u16),
        ),
{
    reveal_strlit("[");
    reveal_strlit("]:");
    reveal_strlit("]");
    let target = "["@ + inner + "]:"@ + port;
    let k = inner.len() as int + 1;
    lemma_char_index(target, ']', 0);
    assert(target[k] == ']');
    assert(target[0] == '[');
    let close = char_index(target, ']', 0);
    if close < k && close > 0 {
        assert(target[close] == inner[close - 1]);
    }
    assert(close == k);
    assert(target.take(k + 1) =~= "["@ + inner + "]"@);
    let rest = target.skip(k + 1);
    assert(rest[0] == ':');
    assert(rest.skip(1) =~= port);
    assert(is_digit(port[0]));
    reveal_with_fuel(without_colons, 3);
}

/// A target without brackets and colons has no port.
pub proof fn law_target_needs_port(target: Seq<char>)
    requires
        forall|i: int| 0 <= i < target.len() ==> #[trigger] target[i] != ']' && target[i] != ':',
    ensures
        host_and_port(target) == Err::<(Seq<char>, u16), SocksFault>(SocksFault::NoPort(target)),
{
    lemma_char_index(target, ']', 0);
    lemma_behind_last(target, ':', target.len() as int);
    let behind = behind_last(target, ':', target.len() as int);
    if behind > 0 {
        assert(target[behind - 1] == ':');
    }
}

// ---------------------------------------------------------------------------
// Requests
// ---------------------------------------------------------------------------

/// A request is complete exactly where it ends with an empty line: carriage
/// return and line feed, twice.
pub proof fn law_request_complete(bytes: Seq<u8>)
    ensures
        request_complete(bytes) <==> {
            let n = bytes.len();
            &&& n >= 4
            &&& bytes[n - 4] == 13 && bytes[n - 3] == 10
            &&& bytes[n - 2] == 13 && bytes[n - 1] == 10
        },
{
    let n = bytes.len();
    if n >= 4 {
        let end = bytes.skip(n - 4);
        assert(end[0] == bytes[n - 4] && end[1] == bytes[n - 3] && end[2] == bytes[n - 2] && end[3]
            == bytes[n - 1]);
        if request_complete(bytes) {
            assert(end[0] == 13 && end[1] == 10 && end[2] == 13 && end[3] == 10);
        } else if bytes[n - 4] == 13 && bytes[n - 3] == 10 && bytes[n - 2] == 13 && bytes[n - 1]
            == 10 {
            assert(end =~= seq![13u8, 10u8, 13u8, 10u8]);
        }
    }
}

/// The target is the second word of a first line with at least three, the
/// first of which is `CONNECT`; every other request is refused.
pub proof fn law_request_target(bytes: Seq<u8>, line: Seq<char>)
    requires
        valid_utf8(bytes),
        first_line(decode_utf8(bytes)) == Some(line),
    ensures
        ({
            let parts = words(line, line.len() as int);
            let r = request_target(bytes);
            &&& r is Ok <==> parts.len() >= 3 && parts[0] == "CONNECT"@
            &&& r matches Ok(target) ==> target == parts[1]
            &&& r matches Err(fault) ==> fault == SocksFault::InvalidRequest(line)
        }),
{
}

/// A request that is no text is refused as such.
pub proof fn law_request_is_text(bytes: Seq<u8>)
    requires
        !valid_utf8(bytes),
    ensures
        request_target(bytes) == Err::<Seq<char>, SocksFault>(
            SocksFault::RequestNotText(utf8_complaint(bytes)),
        ),
{
}

/// Words are not empty and hold no white space.
pub proof fn law_words_solid(s: Seq<char>, n: int, i: int)
    requires
        0 <= n <= s.len(),
        0 <= i < words(s, n).len(),
    ensures
        words(s, n)[i].len() > 0,
        forall|j: int| 0 <= j < words(s, n)[i].len() ==> !is_space(#[trigger] words(s, n)[i][j]),
    decreases n,
{
    if n > 0 {
        if is_space(s[n - 1]) {
            law_words_solid(s, n - 1, i);
        } else {
            let before = words(s, n - 1);
            if i < before.len() {
                law_words_solid(s, n - 1, i);
            }
            if n > 1 && !is_space(s[n - 2]) {
                lemma_word_open(s, n - 1);
                law_words_solid(s, n - 1, before.len() - 1);
            }
        }
    }
}

proof fn lemma_word_open(s: Seq<char>, n: int)
    requires
        0 < n <= s.len(),
        !is_space(s[n - 1]),
    ensures
        words(s, n).len() > 0,
    decreases n,
{
    if n > 1 && !is_space(s[n - 2]) {
        lemma_word_open(s, n - 1);
    }
}

/// The words of a line are its characters but the white space, in order.
pub proof fn law_words_complete(s: Seq<char>, n: int)
    requires
        0 <= n <= s.len(),
    ensures
        run_together(words(s, n)) == s.take(n).filter(|c: char| !is_space(c)),
    decreases n,
{
    reveal(Seq::filter);
    if n > 0 {
        law_words_complete(s, n - 1);
        assert(s.take(n).drop_last() =~= s.take(n - 1));
        assert(s.take(n).last() == s[n - 1]);
        let before = words(s, n - 1);
        let all = words(s, n);
        if is_space(s[n - 1]) {
        } else if n == 1 || is_space(s[n - 2]) {
            assert(all.drop_last() =~= before);
            assert(all.last() =~= seq![s[n - 1]]);
            assert(run_together(all) =~= run_together(before).push(s[n - 1]));
        } else {
            lemma_word_open(s, n - 1);
            assert(all.drop_last() =~= before.drop_last());
            assert(all.last() =~= before.last().push(s[n - 1]));
            assert(run_together(all) =~= run_together(before).push(s[n - 1]));
        }
    } else {
        assert(s.take(0) =~= Seq::empty());
    }
}

/// Words without anything between them.
pub open spec fn run_together(list: Seq<Seq<char>>) -> Seq<char>
    decreases list.len(),
{
    if list.len() == 0 {
        Seq::empty()
    } else {
        run_together(list.drop_last()) + list.last()
    }
}

/// White space between two texts parts their words.
pub proof fn law_words_parted(s: Seq<char>, n: int)
    requires
        1 < n <= s.len(),
        is_space(s[n - 2]),
        !is_space(s[n - 1]),
    ensures
        words(s, n) == words(s, n - 1).push(seq![s[n - 1]]),
        words(s, n - 1) == words(s, n - 2),
{
}

// ---------------------------------------------------------------------------
// Handshake
// ---------------------------------------------------------------------------

/// Username authentication is the one method that is offered.
pub proof fn law_only_username_offered()
    ensures
        greeting() == seq![5u8, 1u8, 2u8],
{
}

/// A greeting is answered exactly where the server speaks version 5 and chose
/// username authentication: with the user name, its length before it, and an
/// empty password.
pub proof fn law_user_name_sent(host: Seq<char>, port: u16, user: Seq<char>, reply: Seq<u8>)
    requires
        reply.len() == 2,
    ensures
        ({
            let r = handshake_step(host, port, user, SocksStage::Greeting, reply);
            let name = encode_utf8(user);
            &&& r is Ok <==> reply[0] == 5 && reply[1] == 2 && name.len() <= 255
            &&& r matches Ok((stage, bytes)) ==> {
                &&& stage == SocksStage::Auth
                &&& bytes.len() == name.len() + 3
                &&& bytes[0] == 1
                &&& bytes[1] == name.len()
                &&& bytes.subrange(2, (2 + name.len()) as int) == name
                &&& bytes.last() == 0
            }
            &&& reply[0] != 5 ==> r == Err::<(SocksStage, Seq<u8>), SocksFault>(
                SocksFault::NotSocks5(reply[0]),
            )
            &&& reply[0] == 5 && reply[1] != 2 ==> r == Err::<(SocksStage, Seq<u8>), SocksFault>(
                SocksFault::WrongMethod(reply[1]),
            )
            &&& reply[0] == 5 && reply[1] == 2 && name.len() > 255 ==> r == Err::<
                (SocksStage, Seq<u8>),
                SocksFault,
            >(SocksFault::UsernameTooLong)
        }),
{
    let name = encode_utf8(user);
    assert(auth_message(name).subrange(2, (2 + name.len()) as int) =~= name);
}

/// An accepted user name is answered with the request to connect: the host by
/// name, which the server resolves, and the port, high byte first.
pub proof fn law_target_sent(host: Seq<char>, port: u16, user: Seq<char>, reply: Seq<u8>)
    requires
        reply.len() == 2,
    ensures
        ({
            let r = handshake_step(host, port, user, SocksStage::Auth, reply);
            let name = encode_utf8(host);
            &&& r is Ok <==> reply[1] == 0 && name.len() <= 255
            &&& r matches Ok((stage, bytes)) ==> {
                &&& stage == SocksStage::Request
                &&& bytes.len() == name.len() + 7
                &&& bytes.take(4) == seq![5u8, 1u8, 0u8, 3u8]
                &&& bytes[4] == name.len()
                &&& bytes.subrange(5, (5 + name.len()) as int) == name
                &&& 256 * bytes[bytes.len() - 2] + bytes[bytes.len() - 1] == port
            }
            &&& reply[1] != 0 ==> r == Err::<(SocksStage, Seq<u8>), SocksFault>(
                SocksFault::AuthRejected(reply[1]),
            )
            &&& reply[1] == 0 && name.len() > 255 ==> r == Err::<(SocksStage, Seq<u8>), SocksFault>(
                SocksFault::HostTooLong(name.len()),
            )
        }),
{
    let name = encode_utf8(host);
    let bytes = connect_message(name, port);
    assert(bytes.take(4) =~= seq![5u8, 1u8, 0u8, 3u8]);
    assert(bytes.subrange(5, (5 + name.len()) as int) =~= name);
    assert(bytes[bytes.len() - 2] == port / 256);
    assert(bytes[bytes.len() - 1] == port % 256);
}

/// A granted request is followed by the bound address, which is read whole: 4
/// or 16 bytes or a name, and a port of two; everything else is refused.
pub proof fn law_reply_read(host: Seq<char>, port: u16, user: Seq<char>, reply: Seq<u8>)
    requires
        reply.len() == 4,
    ensures
        ({
            let r = handshake_step(host, port, user, SocksStage::Request, reply);
            &&& r is Ok <==> reply[0] == 5 && reply[1] == 0 && (reply[3] == 1 || reply[3] == 3
                || reply[3] == 4)
            &&& r matches Ok((stage, bytes)) ==> {
                &&& bytes.len() == 0
                &&& reply[3] == 1 ==> awaited(stage) == 4 + 2
                &&& reply[3] == 4 ==> awaited(stage) == 16 + 2
                &&& reply[3] == 3 ==> stage == SocksStage::DomainLength && awaited(stage) == 1
            }
            &&& reply[0] != 5 ==> r == Err::<(SocksStage, Seq<u8>), SocksFault>(
                SocksFault::ReplyVersion(reply[0]),
            )
            &&& reply[0] == 5 && reply[1] != 0 ==> r == Err::<(SocksStage, Seq<u8>), SocksFault>(
                SocksFault::ConnectFailed(reply[1]),
            )
            &&& r is Err && reply[0] == 5 && reply[1] == 0 ==> r == Err::<
                (SocksStage, Seq<u8>),
                SocksFault,
            >(SocksFault::UnknownAddressType(reply[3]))
        }),
{
}

/// A name is read by its length and with its port; then the connection stands,
/// and nothing more is sent.
pub proof fn law_connection_stands(
    host: Seq<char>,
    port: u16,
    user: Seq<char>,
    length: Seq<u8>,
    address: Seq<u8>,
    n: usize,
)
    requires
        length.len() == 1,
        address.len() == n,
    ensures
        handshake_step(host, port, user, SocksStage::DomainLength, length) matches Ok(
            (stage, bytes),
        ) && awaited(stage) == length[0] + 2 && stage is Address && bytes.len() == 0,
        handshake_step(host, port, user, SocksStage::Address(n), address) == Ok::<
            (SocksStage, Seq<u8>),
            SocksFault,
        >((SocksStage::Connected, Seq::empty())),
        awaited(SocksStage::Connected) == 0,
        awaited(SocksStage::Greeting) == 2,
        awaited(SocksStage::Auth) == 2,
        awaited(SocksStage::Request) == 4,
        awaited(SocksStage::Address(n)) == n,
{
}

/// What reply codes mean.
pub proof fn law_reply_names(code: u8)
    ensures
        reply_name(0) == "succeeded"@,
        reply_name(1) == "general SOCKS server failure"@,
        reply_name(2) == "connection not allowed by ruleset"@,
        reply_name(3) == "network unreachable"@,
        reply_name(4) == "host unreachable"@,
        reply_name(5) == "connection refused"@,
        reply_name(6) == "TTL expired"@,
        reply_name(7) == "command not supported"@,
        reply_name(8) == "address type not supported"@,
        code > 8 ==> reply_name(code) == "unknown"@,
{
}

/// How errors read: what was wrong, and the value that was.
pub proof fn law_socks_errors_read(about: Seq<char>, b: u8, n: nat)
    ensures
        socks_fault_text(SocksFault::NoPort(about)) == "no port in CONNECT target: "@ + about,
        socks_fault_text(SocksFault::InvalidPort(about)) == "invalid port in CONNECT target: "@
            + about,
        socks_fault_text(SocksFault::InvalidRequest(about)) == "invalid CONNECT request: "@
            + quoted(about),
        socks_fault_text(SocksFault::RequestNotText(about)) == "CONNECT request not UTF-8: "@
            + about,
        socks_fault_text(SocksFault::NotSocks5(b)) == "not SOCKS5: version "@ + decimal_text(
            b as nat,
        ),
        socks_fault_text(SocksFault::WrongMethod(b))
            == "SOCKS5: expected username/password auth (0x02), got 0x"@ + seq![
            hex_digit(b / 16),
            hex_digit(b % 16),
        ],
        socks_fault_text(SocksFault::AuthRejected(b)) == "SOCKS5 auth rejected: status "@
            + decimal_text(b as nat),
        socks_fault_text(SocksFault::HostTooLong(n)) == "hostname too long: "@ + decimal_text(n)
            + " bytes"@,
        socks_fault_text(SocksFault::ReplyVersion(b)) == "SOCKS5 reply version "@ + decimal_text(
            b as nat,
        ),
        socks_fault_text(SocksFault::ConnectFailed(b)) == "SOCKS5 CONNECT failed: status "@
            + decimal_text(b as nat) + " ("@ + reply_name(b) + ")"@,
{
    assert(socks_fault_text(SocksFault::WrongMethod(b))
        =~= "SOCKS5: expected username/password auth (0x02), got 0x"@ + seq![
        hex_digit(b / 16),
        hex_digit(b % 16),
    ]);
}

} // verus!
