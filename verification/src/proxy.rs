//! The proxy that joins an SSH client to the gateway: where to connect, what to
//! ask for, and what the gateway answers.
use vstd::prelude::*;
use vstd::utf8;

use crate::lines;
use crate::lossy;
use crate::lossy::read_lossy;
use crate::numbers;
use crate::numbers::{parse_u16, to_decimal};
use crate::text;
use crate::text::{chars_of, lower_case, same, split_lines, split_words};

verus! {

/// Why the `url` crate refuses a text.
#[verifier::external_type_specification]
#[verifier::external_body]
pub struct ExParseError(url::ParseError);

/// The parts of a URL that lead to a gateway.
#[derive(Debug)]
pub struct UrlParts {
    pub scheme: String,
    pub host: Option<String>,
    /// The port that the URL names, or that its scheme implies.
    pub port: Option<u16>,
    pub path: String,
}

/// What the parts of a URL hold.
#[verifier::ext_equal]
pub struct UrlView {
    pub scheme: Seq<char>,
    pub host: Option<Seq<char>>,
    pub port: Option<u16>,
    pub path: Seq<char>,
}

impl View for UrlParts {
    type V = UrlView;

    open spec fn view(&self) -> UrlView {
        UrlView {
            scheme: self.scheme@,
            host: match self.host {
                Some(host) => Some(host@),
                None => None,
            },
            port: self.port,
            path: self.path@,
        }
    }
}

/// The parts of the URL in a text, or `None` where the text is no URL.
pub uninterp spec fn url_parts(text: Seq<char>) -> Option<UrlView>;

/// `url::Url::parse`, with the parts that `scheme`, `host_str`,
/// `port_or_known_default` and `path` give of its result: which texts it takes,
/// and what the parts are, depends on the text alone.
#[verifier::external_body]
fn parse_url(text: &str) -> (r: Result<UrlParts, url::ParseError>)
    ensures
        match r {
            Ok(parts) => url_parts(text@) == Some(parts@),
            Err(_) => url_parts(text@) is None,
        },
{
    let url = url::Url::parse(text)?;
    Ok(
        UrlParts {
            scheme: url.scheme().to_string(),
            host: url.host_str().map(str::to_string),
            port: url.port_or_known_default(),
            path: url.path().to_string(),
        },
    )
}

/// A gateway to connect to.
#[derive(Debug)]
pub struct Gateway {
    pub scheme: String,
    pub host: String,
    pub port: u16,
    pub connect_path: String,
}

/// What a gateway holds.
#[verifier::ext_equal]
pub struct GatewayView {
    pub scheme: Seq<char>,
    pub host: Seq<char>,
    pub port: u16,
    pub connect_path: Seq<char>,
}

impl View for Gateway {
    type V = GatewayView;

    open spec fn view(&self) -> GatewayView {
        GatewayView {
            scheme: self.scheme@,
            host: self.host@,
            port: self.port,
            connect_path: self.connect_path@,
        }
    }
}

/// Why a text names no gateway.
#[derive(Debug)]
pub enum GatewayError {
    /// It is no URL.
    InvalidUrl(url::ParseError),
    /// It names no host.
    MissingHost,
    /// It names no port, and its scheme implies none.
    MissingPort,
}

impl GatewayError {
    /// What is said of it, in front of what the URL parser says.
    pub fn message(&self) -> (r: &'static str)
        ensures
            r@ == match *self {
                GatewayError::InvalidUrl(_) => "invalid gateway URL"@,
                GatewayError::MissingHost => "gateway URL missing host"@,
                GatewayError::MissingPort => "gateway URL missing port"@,
            },
    {
        match self {
            GatewayError::InvalidUrl(_) => "invalid gateway URL",
            GatewayError::MissingHost => "gateway URL missing host",
            GatewayError::MissingPort => "gateway URL missing port",
        }
    }
}

/// Whether the parts of a URL lead to a gateway, and to which.
pub open spec fn gateway_of(parts: UrlView) -> Option<GatewayView> {
    match (parts.host, parts.port) {
        (Some(host), Some(port)) => Some(
            GatewayView { scheme: parts.scheme, host, port, connect_path: parts.path },
        ),
        _ => None,
    }
}

/// The gateway to which the parts of a URL lead.
pub fn gateway_from_parts(parts: UrlParts) -> (r: Result<Gateway, GatewayError>)
    ensures
        match r {
            Ok(gateway) => gateway_of(parts@) == Some(gateway@),
            Err(GatewayError::InvalidUrl(_)) => false,
            Err(GatewayError::MissingHost) => parts@.host is None,
            Err(GatewayError::MissingPort) => parts@.host is Some && parts@.port is None,
        },
        match r {
            Ok(gateway) => {
                &&& gateway.scheme@ == parts.scheme@
                &&& parts.host is Some && gateway.host@ == parts.host->0@
                &&& parts.port == Some(gateway.port)
                &&& gateway.connect_path@ == parts.path@
            },
            Err(GatewayError::InvalidUrl(_)) => false,
            Err(GatewayError::MissingHost) => parts.host is None,
            Err(GatewayError::MissingPort) => parts.host is Some && parts.port is None,
        },
{
    let host = match parts.host {
        Some(host) => host,
        None => return Err(GatewayError::MissingHost),
    };
    let port: u16 = match parts.port {
        Some(port) => port,
        None => return Err(GatewayError::MissingPort),
    };
    Ok(Gateway { scheme: parts.scheme, host, port, connect_path: parts.path })
}

/// The gateway that a URL names.
pub fn parse_gateway(gateway_url: &str) -> (r: Result<Gateway, GatewayError>)
    ensures
        match (r, url_parts(gateway_url@)) {
            (Ok(gateway), Some(parts)) => gateway_of(parts) == Some(gateway@),
            (Err(GatewayError::InvalidUrl(_)), None) => true,
            (Err(GatewayError::MissingHost), Some(parts)) => parts.host is None,
            (Err(GatewayError::MissingPort), Some(parts)) => parts.host is Some && parts.port
                is None,
            _ => false,
        },
        match (r, url_parts(gateway_url@)) {
            (Ok(gateway), Some(parts)) => {
                &&& gateway.scheme@ == parts.scheme
                &&& parts.host == Some(gateway.host@)
                &&& parts.port == Some(gateway.port)
                &&& gateway.connect_path@ == parts.path
            },
            (Ok(_), None) => false,
            (Err(_), _) => true,
        },
{
    match parse_url(gateway_url) {
        Ok(parts) => gateway_from_parts(parts),
        Err(e) => Err(GatewayError::InvalidUrl(e)),
    }
}

/// Whether a scheme asks for an encrypted connection.
pub open spec fn encrypted(scheme: Seq<char>) -> bool {
    text::lowered(scheme) == "https"@
}

/// Whether a scheme asks for an encrypted connection.
pub fn uses_tls(scheme: &str) -> (r: bool)
    ensures
        r == encrypted(scheme@),
{
    same(&lower_case(&chars_of(scheme)), &chars_of("https"))
}

/// Whether an endpoint asks for an encrypted connection.
pub fn is_https(endpoint: &str) -> (r: Result<bool, url::ParseError>)
    ensures
        match (r, url_parts(endpoint@)) {
            (Ok(https), Some(parts)) => https == encrypted(parts.scheme),
            (Err(_), None) => true,
            _ => false,
        },
{
    match parse_url(endpoint) {
        Ok(parts) => Ok(uses_tls(parts.scheme.as_str())),
        Err(e) => Err(e),
    }
}

/// The endpoint for which the client's certificate is looked up.
pub fn tls_endpoint(gateway: &Gateway) -> (r: String)
    ensures
        r@ == "https://"@ + gateway@.host + ":"@ + numbers::decimal(gateway@.port as nat),
        r@ == "https://"@ + gateway.host@ + ":"@ + numbers::decimal(gateway.port as nat),
{
    "https://".to_string().concat(gateway.host.as_str()).concat(":").concat(
        to_decimal(gateway.port as u32).as_str(),
    )
}

/// Whether a host can be the name for which a server shows its certificate.
pub uninterp spec fn names_server(host: Seq<char>) -> bool;

/// `rustls::pki_types::ServerName::try_from`: whether it takes a host, as a DNS
/// name or as an IP address, depends on the host alone.
#[verifier::external_body]
fn is_server_name(host: &str) -> (r: bool)
    ensures
        r == names_server(host@),
{
    rustls::pki_types::ServerName::try_from(host).is_ok()
}

/// A host that no certificate can be for.
#[derive(Debug)]
pub struct InvalidServerName {
    pub host: String,
}

impl InvalidServerName {
    /// What is said of it.
    pub fn message(&self) -> (r: String)
        ensures
            r@ == "invalid server name: "@ + self.host@,
    {
        "invalid server name: ".to_string().concat(self.host.as_str())
    }
}

/// The name for which a gateway shows its certificate.
pub fn tls_server_name(gateway: &Gateway) -> (r: Result<String, InvalidServerName>)
    ensures
        match r {
            Ok(name) => names_server(gateway@.host) && name@ == gateway@.host,
            Err(e) => !names_server(gateway@.host) && e.host@ == gateway@.host,
        },
{
    let host = gateway.host.clone();
    if is_server_name(host.as_str()) {
        Ok(host)
    } else {
        Err(InvalidServerName { host })
    }
}

/// What is asked of a gateway.
pub open spec fn request_text(
    gateway: GatewayView,
    sandbox_id: Seq<char>,
    token: Seq<char>,
) -> Seq<char> {
    "CONNECT "@ + gateway.connect_path + " HTTP/1.1\r\nHost: "@ + gateway.host
        + "\r\nX-Sandbox-Id: "@ + sandbox_id + "\r\nX-Sandbox-Token: "@ + token + "\r\n\r\n"@
}

/// What is asked of a gateway: a connection to a sandbox, with the token that
/// grants it.
pub fn connect_request(gateway: &Gateway, sandbox_id: &str, token: &str) -> (r: String)
    ensures
        r@ == request_text(gateway@, sandbox_id@, token@),
        r@ == "CONNECT "@ + gateway.connect_path@ + " HTTP/1.1\r\nHost: "@ + gateway.host@
            + "\r\nX-Sandbox-Id: "@ + sandbox_id@ + "\r\nX-Sandbox-Token: "@ + token@ + "\r\n\r\n"@,
{
    "CONNECT ".to_string().concat(gateway.connect_path.as_str()).concat(
        " HTTP/1.1\r\nHost: ",
    ).concat(gateway.host.as_str()).concat("\r\nX-Sandbox-Id: ").concat(sandbox_id).concat(
        "\r\nX-Sandbox-Token: ",
    ).concat(token).concat("\r\n\r\n")
}

/// What is asked of a gateway is one request: its first line names the path, one
/// header each names the host, the sandbox and the token, and an empty line ends
/// it. Nothing that stands in the parts adds a header, so long as no part holds a
/// line feed.
pub proof fn law_request_is_one_head(gateway: GatewayView, sandbox_id: Seq<char>, token: Seq<char>)
    requires
        lines::single_line(gateway.connect_path),
        lines::single_line(gateway.host),
        lines::single_line(sandbox_id),
        lines::single_line(token),
    ensures
        text::lines(request_text(gateway, sandbox_id, token)) == seq![
            "CONNECT "@ + gateway.connect_path + " HTTP/1.1"@,
            "Host: "@ + gateway.host,
            "X-Sandbox-Id: "@ + sandbox_id,
            "X-Sandbox-Token: "@ + token,
            Seq::<char>::empty(),
        ],
{
    reveal_strlit("CONNECT ");
    reveal_strlit(" HTTP/1.1");
    reveal_strlit(" HTTP/1.1\r\nHost: ");
    reveal_strlit("Host: ");
    reveal_strlit("\r\nX-Sandbox-Id: ");
    reveal_strlit("X-Sandbox-Id: ");
    reveal_strlit("\r\nX-Sandbox-Token: ");
    reveal_strlit("X-Sandbox-Token: ");
    reveal_strlit("\r\n\r\n");
    reveal_strlit("\r\n");
    let empty = Seq::<char>::empty();
    let l1 = "CONNECT "@ + gateway.connect_path + " HTTP/1.1"@;
    let l2 = "Host: "@ + gateway.host;
    let l3 = "X-Sandbox-Id: "@ + sandbox_id;
    let l4 = "X-Sandbox-Token: "@ + token;
    let t5 = empty + "\r\n"@ + empty;
    let t4 = l4 + "\r\n"@ + t5;
    let t3 = l3 + "\r\n"@ + t4;
    let t2 = l2 + "\r\n"@ + t3;
    let t1 = l1 + "\r\n"@ + t2;
    let end = "\r\n\r\n"@;
    assert(" HTTP/1.1\r\nHost: "@ =~= " HTTP/1.1"@ + "\r\n"@ + "Host: "@);
    assert("\r\nX-Sandbox-Id: "@ =~= "\r\n"@ + "X-Sandbox-Id: "@);
    assert("\r\nX-Sandbox-Token: "@ =~= "\r\n"@ + "X-Sandbox-Token: "@);
    assert(end =~= "\r\n"@ + t5);
    assert(request_text(gateway, sandbox_id, token) =~= t1);
    assert(lines::single_line("CONNECT "@) && lines::single_line(" HTTP/1.1"@) && lines::single_line("Host: "@) && lines::single_line(
        "X-Sandbox-Id: "@,
    ) && lines::single_line("X-Sandbox-Token: "@));
    lines::lemma_single_line_sum("CONNECT "@, gateway.connect_path);
    lines::lemma_single_line_sum("CONNECT "@ + gateway.connect_path, " HTTP/1.1"@);
    lines::lemma_single_line_sum("Host: "@, gateway.host);
    lines::lemma_single_line_sum("X-Sandbox-Id: "@, sandbox_id);
    lines::lemma_single_line_sum("X-Sandbox-Token: "@, token);
    lines::lemma_first_line(l1, t2);
    lines::lemma_first_line(l2, t3);
    lines::lemma_first_line(l3, t4);
    lines::lemma_first_line(l4, t5);
    lines::lemma_first_line(empty, empty);
    assert(text::lines(empty) =~= Seq::<Seq<char>>::empty());
    assert(seq![l1] + (seq![l2] + (seq![l3] + (seq![l4] + (seq![empty] + Seq::<
        Seq<char>,
    >::empty())))) =~= seq![l1, l2, l3, l4, empty]);
}

/// How many bytes of a reply are read at most before it is taken as it is.
pub const REPLY_LIMIT: usize = 8192;

/// Whether the empty line that ends a head stands at a place.
pub open spec fn head_ends_at(bytes: Seq<u8>, i: int) -> bool {
    0 <= i && i + 4 <= bytes.len() && bytes[i] == 13 && bytes[i + 1] == 10 && bytes[i + 2] == 13
        && bytes[i + 3] == 10
}

/// Whether bytes hold the empty line that ends a head.
pub open spec fn holds_head_end(bytes: Seq<u8>) -> bool {
    exists|i: int| #[trigger] head_ends_at(bytes, i)
}

fn has_head_end(bytes: &[u8]) -> (r: bool)
    ensures
        r == holds_head_end(bytes@),
{
    if bytes.len() < 4 {
        assert forall|j: int| !#[trigger] head_ends_at(bytes@, j) by {}
        return false;
    }
    let mut i: usize = 0;
    while i <= bytes.len() - 4
        invariant
            4 <= bytes@.len(),
            i <= bytes@.len() - 3,
            forall|j: int| j < i ==> !#[trigger] head_ends_at(bytes@, j),
        decreases bytes@.len() - i,
    {
        if bytes[i] == 13 && bytes[i + 1] == 10 && bytes[i + 2] == 13 && bytes[i + 3] == 10 {
            assert(head_ends_at(bytes@, i as int));
            return true;
        }
        i = i + 1;
    }
    false
}

/// What a gateway has answered so far.
#[derive(Debug)]
pub struct ConnectReply {
    bytes: Vec<u8>,
}

impl View for ConnectReply {
    type V = Seq<u8>;

    closed spec fn view(&self) -> Seq<u8> {
        self.bytes@
    }
}

impl ConnectReply {
    /// Nothing is answered yet.
    pub fn new() -> (r: Self)
        ensures
            r@ == Seq::<u8>::empty(),
    {
        ConnectReply { bytes: Vec::new() }
    }

    /// Adds what was read, and says whether that is all that is to be read: the
    /// gateway has nothing more to say, or has ended its head, or says too much.
    pub fn read(&mut self, chunk: &[u8]) -> (done: bool)
        ensures
            final(self)@ == old(self)@ + chunk@,
            done == (chunk@.len() == 0 || holds_head_end(final(self)@) || final(self)@.len()
                > REPLY_LIMIT),
            final(self)@.len() > 8192 ==> done,
            done && final(self)@.len() <= 8192 ==> chunk@.len() == 0 || holds_head_end(
                final(self)@,
            ),
    {
        if chunk.len() == 0 {
            assert(self@ + chunk@ =~= self@);
            return true;
        }
        let mut i: usize = 0;
        assert(self@ =~= old(self)@ + chunk@.take(0));
        while i < chunk.len()
            invariant
                i <= chunk@.len(),
                self@ == old(self)@ + chunk@.take(i as int),
            decreases chunk@.len() - i,
        {
            self.bytes.push(chunk[i]);
            assert(chunk@.take(i + 1) =~= chunk@.take(i as int).push(chunk@[i as int]));
            i = i + 1;
        }
        assert(chunk@.take(i as int) =~= chunk@);
        has_head_end(&self.bytes) || self.bytes.len() > REPLY_LIMIT
    }

    /// The status that the gateway answered with. Where the reply is UTF-8, it is
    /// the status of the text that it is.
    pub fn read_connect_status(&self) -> (r: u16)
        ensures
            r == connect_status(lossy::lossy_text(self@)),
            utf8::valid_utf8(self@) ==> r == connect_status(utf8::decode_utf8(self@)),
    {
        let text = read_lossy(&self.bytes);
        parse_connect_status(text.as_str())
    }
}

/// The bytes of all chunks.
pub open spec fn all_bytes(chunks: Seq<Seq<u8>>) -> Seq<u8>
    decreases chunks.len(),
{
    if chunks.len() == 0 {
        Seq::empty()
    } else {
        all_bytes(chunks.drop_last()) + chunks.last()
    }
}

/// Whether a reply is still to be read after some chunks: none of them was the
/// end of it.
pub open spec fn still_reading(chunks: Seq<Seq<u8>>) -> bool
    decreases chunks.len(),
{
    chunks.len() == 0 || {
        &&& still_reading(chunks.drop_last())
        &&& chunks.last().len() > 0
        &&& !holds_head_end(all_bytes(chunks))
        &&& all_bytes(chunks).len() <= REPLY_LIMIT
    }
}

/// Reading a reply ends, whatever the gateway sends: a reply that is still to be
/// read came in no more chunks, and no more bytes, than the limit.
pub proof fn law_reading_a_reply_ends(chunks: Seq<Seq<u8>>)
    requires
        still_reading(chunks),
    ensures
        chunks.len() <= all_bytes(chunks).len() <= REPLY_LIMIT,
    decreases chunks.len(),
{
    if chunks.len() > 0 {
        law_reading_a_reply_ends(chunks.drop_last());
    }
}

/// The status in a gateway's answer: the second word of its first line, or zero
/// where that is no number of 16 bits.
pub open spec fn connect_status(reply: Seq<char>) -> u16 {
    let line = if text::lines(reply).len() > 0 {
        text::lines(reply)[0]
    } else {
        Seq::empty()
    };
    let words = text::words(line);
    if words.len() > 1 && numbers::number_u16(words[1]) is Some {
        numbers::number_u16(words[1])->0
    } else {
        0
    }
}

/// The status in a gateway's answer.
pub fn parse_connect_status(reply: &str) -> (r: u16)
    ensures
        r == connect_status(reply@),
{
    let all = split_lines(&chars_of(reply));
    assert(text::char_views(all@) == text::lines(reply@));
    if all.len() == 0 {
        proof {
            assert(text::trim_start(Seq::<char>::empty()) =~= Seq::<char>::empty());
            assert(text::words(Seq::<char>::empty()) =~= Seq::<Seq<char>>::empty());
        }
        return 0;
    }
    let words = split_words(&all[0]);
    assert(all@[0]@ == text::lines(reply@)[0]);
    assert(text::char_views(words@) == text::words(all@[0]@));
    if words.len() < 2 {
        return 0;
    }
    assert(words@[1]@ == text::words(all@[0]@)[1]);
    match parse_u16(&words[1]) {
        Some(status) => status,
        None => 0,
    }
}

/// A gateway that did not grant the connection, with its status.
#[derive(Clone, Copy, Debug, PartialEq, Eq, Structural)]
pub struct ConnectRefused {
    pub status: u16,
}

impl ConnectRefused {
    /// What is said of it.
    pub fn message(&self) -> (r: String)
        ensures
            r@ == "gateway CONNECT failed with status "@ + numbers::decimal(self.status as nat),
    {
        "gateway CONNECT failed with status ".to_string().concat(
            to_decimal(self.status as u32).as_str(),
        )
    }
}

/// Whether a gateway granted the connection.
pub fn check_connect_status(status: u16) -> (r: Result<(), ConnectRefused>)
    ensures
        r == if status == 200 {
            Ok(())
        } else {
            Err(ConnectRefused { status })
        },
{
    if status != 200 {
        return Err(ConnectRefused { status });
    }
    Ok(())
}

/// Whether a text is one word.
pub open spec fn one_word(s: Seq<char>) -> bool {
    s.len() > 0 && forall|i: int| 0 <= i < s.len() ==> !text::white_space(#[trigger] s[i])
}

/// A word in front of white space is the first word.
proof fn lemma_first_word(word: Seq<char>, rest: Seq<char>)
    requires
        one_word(word),
        rest.len() == 0 || text::white_space(rest[0]),
    ensures
        text::words(word + rest) == seq![word] + text::words(rest),
{
    let s = word + rest;
    assert(s[0] == word[0]);
    assert(!text::white_space(s[0]));
    assert(text::indent_len(s) == 0);
    assert(text::trim_start(s) =~= s);
    lemma_word_len_of_sum(word, rest);
    assert(s.take(word.len() as int) =~= word);
    assert(s.skip(word.len() as int) =~= rest);
}

proof fn lemma_word_len_of_sum(word: Seq<char>, rest: Seq<char>)
    requires
        forall|i: int| 0 <= i < word.len() ==> !text::white_space(#[trigger] word[i]),
        rest.len() == 0 || text::white_space(rest[0]),
    ensures
        text::word_len(word + rest) == word.len(),
{
    text::lemma_word_len_of_sum(word, rest);
}

/// The first line of a text that begins with a front of one line is that front
/// with whatever follows it there.
proof fn lemma_front_of_first_line(front: Seq<char>, rest: Seq<char>) -> (tail: Seq<char>)
    requires
        front.len() > 0,
        front.last() != '\r',
        lines::single_line(front),
    ensures
        text::lines(front + rest).len() > 0,
        text::lines(front + rest)[0] == front + tail,
        tail.len() == 0 || rest.len() > 0 && tail[0] == rest[0],
{
    let whole = front + rest;
    lines::lemma_find_in_rest(front, '\n', rest);
    lines::lemma_find_bounds(rest);
    let n = text::find(whole, '\n') as int;
    let m = text::find(rest, '\n') as int;
    if n >= whole.len() {
        rest
    } else {
        let tail = text::without_carriage_return(rest.take(m));
        assert(whole.take(n) =~= front + rest.take(m));
        if m == 0 {
            assert(whole.take(n) =~= front);
            assert(tail =~= Seq::<char>::empty());
        } else {
            assert(whole.take(n).last() == rest.take(m).last());
            assert(whole.take(n).drop_last() =~= front + rest.take(m).drop_last());
        }
        assert(text::without_carriage_return(whole.take(n)) =~= front + tail);
        tail
    }
}

/// A gateway that answers with a version and a status has answered with that
/// status, however the answer goes on behind it.
pub proof fn law_status_is_read(version: Seq<char>, status: u16, rest: Seq<char>)
    requires
        one_word(version),
        rest.len() == 0 || text::white_space(rest[0]),
    ensures
        connect_status(version + " "@ + numbers::decimal(status as nat) + rest) == status,
{
    reveal_strlit(" ");
    let code = numbers::decimal(status as nat);
    let front = version + " "@ + code;
    numbers::lemma_decimal(status as nat);
    assert(one_word(code)) by {
        assert forall|i: int| 0 <= i < code.len() implies !text::white_space(
            #[trigger] code[i],
        ) by {
            assert(numbers::is_digit(code[i]));
        }
    }
    assert forall|i: int| 0 <= i < front.len() implies #[trigger] front[i] != '\n' by {
        if i < version.len() {
            assert(front[i] == version[i]);
            assert(!text::white_space(version[i]));
        } else if i > version.len() {
            assert(front[i] == code[i - version.len() - 1]);
            assert(!text::white_space(code[i - version.len() - 1]));
        }
    }
    assert(front.last() == code[code.len() - 1]);
    assert(!text::white_space(code[code.len() - 1]));
    let tail = lemma_front_of_first_line(front, rest);
    let line = front + tail;
    let gap = " "@ + (code + tail);
    assert(line =~= version + gap);
    lemma_first_word(version, gap);
    lemma_first_word(code, tail);
    assert(text::blank(" "@));
    assert((code + tail)[0] == code[0]);
    assert(!text::white_space(code[0]));
    text::lemma_indent_of_sum(" "@, code + tail);
    assert(text::indent_len(code + tail) == 0);
    assert(text::trim_start(code + tail) =~= code + tail);
    assert(text::words(gap) == text::words(code + tail));
    assert(text::words(line)[1] == code);
    numbers::law_decimal_reads_back(status as nat);
}

/// The gateway of a URL has the four parts of the URL as they are. A URL leads to
/// one exactly where it has a host and a port.
pub proof fn law_gateway_has_the_parts_of_its_url(parts: UrlView)
    ensures
        gateway_of(parts) is Some <==> parts.host is Some && parts.port is Some,
        gateway_of(parts) matches Some(gateway) ==> {
            &&& gateway.scheme == parts.scheme
            &&& Some(gateway.host) == parts.host
            &&& Some(gateway.port) == parts.port
            &&& gateway.connect_path == parts.path
            &&& encrypted(gateway.scheme) == encrypted(parts.scheme)
        },
{
}

/// URLs that lead to the same gateway have the same parts.
pub proof fn law_gateways_tell_urls_apart(one: UrlView, other: UrlView)
    requires
        gateway_of(one) is Some,
        gateway_of(one) == gateway_of(other),
    ensures
        one == other,
{
}

/// A scheme asks for an encrypted connection exactly where it is `https`, in
/// whatever case.
pub proof fn law_https_is_encrypted(scheme: Seq<char>)
    ensures
        encrypted(scheme) <==> {
            &&& scheme.len() == 5
            &&& scheme[0] == 'h' || scheme[0] == 'H'
            &&& scheme[1] == 't' || scheme[1] == 'T'
            &&& scheme[2] == 't' || scheme[2] == 'T'
            &&& scheme[3] == 'p' || scheme[3] == 'P'
            &&& scheme[4] == 's' || scheme[4] == 'S'
        },
{
    reveal_strlit("https");
    let low = text::lowered(scheme);
    let https = "https"@;
    assert(low.len() == scheme.len());
    if scheme.len() == 5 {
        text::law_lowered_text(scheme, 0);
        text::law_lowered_text(scheme, 1);
        text::law_lowered_text(scheme, 2);
        text::law_lowered_text(scheme, 3);
        text::law_lowered_text(scheme, 4);
        if low == https {
            assert(low[0] == 'h' && low[1] == 't' && low[2] == 't' && low[3] == 'p' && low[4]
                == 's');
        } else {
            assert(!(low =~= https));
        }
    }
}

/// Bytes hold the end of a head exactly where two line ends stand behind each other
/// in them.
pub proof fn law_head_ends_with_an_empty_line(bytes: Seq<u8>, end: Seq<u8>)
    requires
        end == seq![13u8, 10u8, 13u8, 10u8],
    ensures
        holds_head_end(bytes) <==> exists|head: Seq<u8>, rest: Seq<u8>|
            bytes == #[trigger] (head + end + rest),
{
    if holds_head_end(bytes) {
        let i = choose|i: int| #[trigger] head_ends_at(bytes, i);
        assert(bytes =~= bytes.take(i) + end + bytes.skip(i + 4));
    }
    if exists|head: Seq<u8>, rest: Seq<u8>| bytes == #[trigger] (head + end + rest) {
        let (head, rest) = choose|head: Seq<u8>, rest: Seq<u8>|
            bytes == #[trigger] (head + end + rest);
        let i = head.len() as int;
        assert(bytes[i] == end[0] && bytes[i + 1] == end[1] && bytes[i + 2] == end[2] && bytes[i
            + 3] == end[3]);
        assert(head_ends_at(bytes, i));
    }
}

/// The bytes of chunks are those of the first of them, and then those of the others.
pub proof fn law_chunks_in_order(one: Seq<Seq<u8>>, chunk: Seq<u8>, other: Seq<Seq<u8>>)
    ensures
        all_bytes(seq![chunk]) == chunk,
        all_bytes(one + other) == all_bytes(one) + all_bytes(other),
    decreases other.len(),
{
    reveal_with_fuel(all_bytes, 2);
    assert(seq![chunk].drop_last() =~= Seq::<Seq<u8>>::empty());
    assert(all_bytes(seq![chunk]) =~= chunk);
    if other.len() == 0 {
        assert(one + other =~= one);
        assert(all_bytes(one) + all_bytes(other) =~= all_bytes(one));
    } else {
        law_chunks_in_order(one, chunk, other.drop_last());
        assert((one + other).drop_last() =~= one + other.drop_last());
        assert((one + other).last() == other.last());
        assert(all_bytes(one + other) =~= all_bytes(one) + all_bytes(other));
    }
}

/// A reply is still to be read as long as every chunk held something, and neither
/// the end of the head nor more than the limit has come.
pub proof fn law_reading_goes_on(chunks: Seq<Seq<u8>>)
    ensures
        still_reading(chunks) <==> {
            &&& forall|i: int| 0 <= i < chunks.len() ==> (#[trigger] chunks[i]).len() > 0
            &&& !holds_head_end(all_bytes(chunks))
            &&& all_bytes(chunks).len() <= 8192
        },
    decreases chunks.len(),
{
    if chunks.len() == 0 {
        assert forall|i: int| !#[trigger] head_ends_at(all_bytes(chunks), i) by {}
    } else {
        let front = chunks.drop_last();
        law_reading_goes_on(front);
        let all = all_bytes(chunks);
        let before = all_bytes(front);
        assert(all == before + chunks.last());
        if holds_head_end(before) {
            let i = choose|i: int| #[trigger] head_ends_at(before, i);
            assert(head_ends_at(all, i));
        }
        let full = forall|i: int| 0 <= i < chunks.len() ==> (#[trigger] chunks[i]).len() > 0;
        let full_front = forall|i: int| 0 <= i < front.len() ==> (#[trigger] front[i]).len() > 0;
        if full {
            assert forall|i: int| 0 <= i < front.len() implies (#[trigger] front[i]).len() > 0 by {
                assert(front[i] == chunks[i]);
            }
            assert(chunks[chunks.len() - 1].len() > 0);
        }
        if full_front && chunks.last().len() > 0 {
            assert forall|i: int| 0 <= i < chunks.len() implies (#[trigger] chunks[i]).len() > 0 by {
                if i < front.len() {
                    assert(front[i] == chunks[i]);
                }
            }
        }
    }
}

/// The status is zero where the first line has fewer than two words, or its second
/// word is no number that fits.
pub proof fn law_no_status_is_zero(reply: Seq<char>)
    ensures
        text::lines(reply).len() == 0 ==> connect_status(reply) == 0,
        text::lines(reply).len() > 0 && text::words(text::lines(reply)[0]).len() < 2
            ==> connect_status(reply) == 0,
        text::lines(reply).len() > 0 && text::words(text::lines(reply)[0]).len() >= 2 ==> match (
        numbers::number_u16(text::words(text::lines(reply)[0])[1])) {
            Some(status) => connect_status(reply) == status,
            None => connect_status(reply) == 0,
        },
{
    if text::lines(reply).len() == 0 {
        assert(text::trim_start(Seq::<char>::empty()) =~= Seq::<char>::empty());
        assert(text::words(Seq::<char>::empty()) =~= Seq::<Seq<char>>::empty());
    }
}

} // verus!
