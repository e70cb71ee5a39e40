//! The text protocol spoken with the client before a tunnel exists: one
//! request line coming in, one status response going out.
//!
//! Nothing here reads or writes a stream. The driver collects the bytes of the
//! request head and asks [`head_status`] whether it is complete; the complete
//! head is parsed by [`parse_head`]. The bytes of a response are given by
//! [`ServerResponse::status_line`].

use vstd::prelude::*;

verus! {

/// The byte that separates the parts of a request line.
pub const SPACE: u8 = 0x20;

/// Carriage return.
pub const CR: u8 = 0x0d;

/// Line feed.
pub const LF: u8 = 0x0a;

/// The most bytes a request head may have before it is given up as too long.
pub const MAX_HEAD: usize = 8192;

/// The one request of a connection, as parsed from its request line.
#[derive(Debug, PartialEq, Eq)]
pub struct Request {
    /// The method name.
    pub method: String,
    /// The request target; for a CONNECT, `host:port`.
    pub target: String,
}

/// The status responses a client can be sent.
#[derive(Clone, Copy, PartialEq, Eq, Structural, Debug)]
pub enum ServerResponse {
    /// The "ok" response: the tunnel is established.
    Established,
    /// The target does not name a reachable socket address.
    BadRequest,
    /// The target is not an allowed destination.
    Forbidden,
    /// The request was not a CONNECT.
    MethodNotAllowed,
}

/// How far the head of a request has come in.
#[derive(Clone, Copy, PartialEq, Eq, Structural, Debug)]
pub enum HeadStatus {
    /// The blank line that ends the head has not arrived yet.
    Incomplete,
    /// The bytes end with the blank line.
    Complete,
    /// The head has reached [`MAX_HEAD`] bytes without ending.
    TooLong,
}

/// Whether `byte` is a visible ASCII character, the only kind that a method, a
/// target or a version is made of.
pub open spec fn is_visible(byte: u8) -> bool {
    0x21 <= byte <= 0x7e
}

/// Whether `bytes` is a run of one or more visible characters.
pub open spec fn is_word(bytes: Seq<u8>) -> bool {
    bytes.len() > 0 && forall|i: int| 0 <= i < bytes.len() ==> is_visible(#[trigger] bytes[i])
}

/// The text that ASCII bytes spell: one character per byte.
pub open spec fn ascii_text(bytes: Seq<u8>) -> Seq<char> {
    Seq::new(bytes.len(), |i: int| bytes[i] as char)
}

/// Whether `head` is a request line made of `method`, `target` and `version`,
/// each a word and one space apart, ended by CR LF and followed by `rest`.
pub open spec fn is_head(
    head: Seq<u8>,
    method: Seq<u8>,
    target: Seq<u8>,
    version: Seq<u8>,
    rest: Seq<u8>,
) -> bool {
    &&& is_word(method)
    &&& is_word(target)
    &&& is_word(version)
    &&& head == method + seq![SPACE] + target + seq![SPACE] + version + seq![CR, LF] + rest
}

/// Whether `head` ends with a blank line: CR LF CR LF.
pub open spec fn ends_with_blank_line(head: Seq<u8>) -> bool {
    &&& head.len() >= 4
    &&& head[head.len() - 4] == CR
    &&& head[head.len() - 3] == LF
    &&& head[head.len() - 2] == CR
    &&& head[head.len() - 1] == LF
}

impl ServerResponse {
    /// The bytes of this response on the wire, as text: a status line and the
    /// blank line that ends the response.
    pub open spec fn status_text(self) -> Seq<char> {
        match self {
            ServerResponse::Established => "HTTP/1.1 200 OK\r\n\r\n"@,
            ServerResponse::BadRequest => "HTTP/1.1 400 Bad Request\r\n\r\n"@,
            ServerResponse::Forbidden => "HTTP/1.1 403 Forbidden\r\n\r\n"@,
            ServerResponse::MethodNotAllowed => "HTTP/1.1 405 Method Not Allowed\r\n\r\n"@,
        }
    }

    /// The complete response to write to the client.
    pub fn status_line(self) -> (text: &'static str)
        ensures
            text@ == self.status_text(),
    {
        match self {
            ServerResponse::Established => "HTTP/1.1 200 OK\r\n\r\n",
            ServerResponse::BadRequest => "HTTP/1.1 400 Bad Request\r\n\r\n",
            ServerResponse::Forbidden => "HTTP/1.1 403 Forbidden\r\n\r\n",
            ServerResponse::MethodNotAllowed => "HTTP/1.1 405 Method Not Allowed\r\n\r\n",
        }
    }
}

/// Calls `String::from_utf8_lossy` and takes the text as an owned string.
/// Trusted: bytes below 0x80 are each the UTF-8 encoding of the character with
/// that code, so the text has one such character per byte.
#[verifier::external_body]
fn ascii_string(bytes: &[u8]) -> (text: String)
    requires
        forall|i: int| 0 <= i < bytes@.len() ==> bytes@[i] < 0x80,
    ensures
        text@ == ascii_text(bytes@),
{
    String::from_utf8_lossy(bytes).into_owned()
}

/// Says whether the bytes received so far hold a whole request head.
pub fn head_status(head: &[u8]) -> (status: HeadStatus)
    ensures
        status == if ends_with_blank_line(head@) {
            HeadStatus::Complete
        } else if head@.len() >= MAX_HEAD {
            HeadStatus::TooLong
        } else {
            HeadStatus::Incomplete
        },
{
    let len: usize = head.len();
    if len >= 4 && head[len - 4] == CR && head[len - 3] == LF && head[len - 2] == CR && head[len
        - 1] == LF {
        HeadStatus::Complete
    } else if len >= MAX_HEAD {
        HeadStatus::TooLong
    } else {
        HeadStatus::Incomplete
    }
}

/// The end of the run of visible characters that begins at `start`.
fn word_end(bytes: &[u8], start: usize) -> (end: usize)
    requires
        start <= bytes@.len(),
    ensures
        start <= end <= bytes@.len(),
        forall|i: int| start <= i < end ==> is_visible(#[trigger] bytes@[i]),
        end < bytes@.len() ==> !is_visible(bytes@[end as int]),
{
    let mut end: usize = start;
    while end < bytes.len() && 0x21 <= bytes[end] && bytes[end] <= 0x7e
        invariant
            start <= end <= bytes@.len(),
            forall|i: int| start <= i < end ==> is_visible(#[trigger] bytes@[i]),
        decreases bytes@.len() - end,
    {
        end = end + 1;
    }
    end
}

/// Where the parts of a head lie: the method from the start, the target one
/// past the space after it, the version one past the next space, and CR LF
/// right after the version.
proof fn lemma_head_layout(
    head: Seq<u8>,
    method: Seq<u8>,
    target: Seq<u8>,
    version: Seq<u8>,
    rest: Seq<u8>,
)
    requires
        is_head(head, method, target, version, rest),
    ensures
        head.len() == method.len() + target.len() + version.len() + rest.len() + 4,
        forall|i: int| 0 <= i < method.len() ==> head[i] == #[trigger] method[i],
        head[method.len() as int] == SPACE,
        forall|i: int| 0 <= i < target.len() ==> head[method.len() + 1 + i] == #[trigger] target[i],
        head[(method.len() + 1 + target.len()) as int] == SPACE,
        forall|i: int|
            0 <= i < version.len() ==> head[method.len() + target.len() + 2 + i]
                == #[trigger] version[i],
        head[(method.len() + target.len() + version.len() + 2) as int] == CR,
        head[(method.len() + target.len() + version.len() + 3) as int] == LF,
        forall|i: int|
            0 <= i < rest.len() ==> head[method.len() + target.len() + version.len() + 4 + i]
                == #[trigger] rest[i],
{
}

/// A head can be taken apart in one way only.
pub proof fn lemma_head_is_unique(
    head: Seq<u8>,
    method: Seq<u8>,
    target: Seq<u8>,
    version: Seq<u8>,
    rest: Seq<u8>,
    other_method: Seq<u8>,
    other_target: Seq<u8>,
    other_version: Seq<u8>,
    other_rest: Seq<u8>,
)
    requires
        is_head(head, method, target, version, rest),
        is_head(head, other_method, other_target, other_version, other_rest),
    ensures
        method == other_method,
        target == other_target,
        version == other_version,
        rest == other_rest,
{
    lemma_head_layout(head, method, target, version, rest);
    lemma_head_layout(head, other_method, other_target, other_version, other_rest);
    lemma_word_stops_at(head, 0, method, other_method);
    assert(method =~= other_method);
    lemma_word_stops_at(head, (method.len() + 1) as int, target, other_target);
    assert(target =~= other_target);
    lemma_word_stops_at(head, (method.len() + target.len() + 2) as int, version, other_version);
    assert(version =~= other_version);
    assert(rest =~= other_rest);
}

/// Two words that both lie in `head` from `start` on, each followed by a byte
/// that is not visible, have the same length.
proof fn lemma_word_stops_at(head: Seq<u8>, start: int, word: Seq<u8>, other: Seq<u8>)
    requires
        0 <= start,
        is_word(word),
        is_word(other),
        start + word.len() < head.len(),
        start + other.len() < head.len(),
        forall|i: int| 0 <= i < word.len() ==> head[start + i] == #[trigger] word[i],
        forall|i: int| 0 <= i < other.len() ==> head[start + i] == #[trigger] other[i],
        !is_visible(head[start + word.len()]),
        !is_visible(head[start + other.len()]),
    ensures
        word.len() == other.len(),
{
    if word.len() < other.len() {
        assert(is_visible(other[word.len() as int]));
    } else if other.len() < word.len() {
        assert(is_visible(word[other.len() as int]));
    }
}

/// Parses the head of a request: the request line, and whatever follows it up
/// to the blank line, which is not looked at.
///
/// The request line is `method SP target SP version CR LF`, each part one or
/// more visible ASCII characters. Anything else is malformed and gives `None`.
pub fn parse_head(head: &[u8]) -> (r: Option<Request>)
    ensures
        match r {
            Some(request) => exists|
                method: Seq<u8>,
                target: Seq<u8>,
                version: Seq<u8>,
                rest: Seq<u8>,
            |
                {
                    &&& #[trigger] is_head(head@, method, target, version, rest)
                    &&& request.method@ == ascii_text(method)
                    &&& request.target@ == ascii_text(target)
                },
            None => forall|method: Seq<u8>, target: Seq<u8>, version: Seq<u8>, rest: Seq<u8>|
                !is_head(head@, method, target, version, rest),
        },
{
    let len: usize = head.len();
    let method_end: usize = word_end(head, 0);
    if method_end == 0 || method_end >= len || head[method_end] != SPACE {
        proof {
            assert forall|method: Seq<u8>, target: Seq<u8>, version: Seq<u8>, rest: Seq<u8>|
                !is_head(head@, method, target, version, rest) by {
                if is_head(head@, method, target, version, rest) {
                    lemma_head_layout(head@, method, target, version, rest);
                    lemma_word_stops_at(head@, 0, method, head@.subrange(0, method_end as int));
                }
            }
        }
        return None;
    }
    let target_start: usize = method_end + 1;
    let target_end: usize = word_end(head, target_start);
    if target_end == target_start || target_end >= len || head[target_end] != SPACE {
        proof {
            assert forall|method: Seq<u8>, target: Seq<u8>, version: Seq<u8>, rest: Seq<u8>|
                !is_head(head@, method, target, version, rest) by {
                if is_head(head@, method, target, version, rest) {
                    lemma_head_layout(head@, method, target, version, rest);
                    lemma_word_stops_at(head@, 0, method, head@.subrange(0, method_end as int));
                    lemma_word_stops_at(
                        head@,
                        target_start as int,
                        target,
                        head@.subrange(target_start as int, target_end as int),
                    );
                }
            }
        }
        return None;
    }
    let version_start: usize = target_end + 1;
    let version_end: usize = word_end(head, version_start);
    if version_end == version_start || version_end >= len - 1 || head[version_end] != CR
        || head[version_end + 1] != LF {
        proof {
            assert forall|method: Seq<u8>, target: Seq<u8>, version: Seq<u8>, rest: Seq<u8>|
                !is_head(head@, method, target, version, rest) by {
                if is_head(head@, method, target, version, rest) {
                    lemma_head_layout(head@, method, target, version, rest);
                    lemma_word_stops_at(head@, 0, method, head@.subrange(0, method_end as int));
                    lemma_word_stops_at(
                        head@,
                        target_start as int,
                        target,
                        head@.subrange(target_start as int, target_end as int),
                    );
                    lemma_word_stops_at(
                        head@,
                        version_start as int,
                        version,
                        head@.subrange(version_start as int, version_end as int),
                    );
                }
            }
        }
        return None;
    }
    let method_bytes = &head[0..method_end];
    let target_bytes = &head[target_start..target_end];
    proof {
        let version = head@.subrange(version_start as int, version_end as int);
        let rest = head@.subrange(version_end + 2, len as int);
        assert(head@ =~= method_bytes@ + seq![SPACE] + target_bytes@ + seq![SPACE] + version
            + seq![CR, LF] + rest);
        assert(is_head(head@, method_bytes@, target_bytes@, version, rest));
    }
    Some(Request { method: ascii_string(method_bytes), target: ascii_string(target_bytes) })
}

} // verus!
