//! The authentication handshake of a new connection, as a state machine over the lines that
//! the daemon answers. Whoever owns the transport writes the lines that the machine asks
//! for and feeds it the answers.

use crate::hexadecimal::hex_of;
use crate::hexadecimal::hex_text;
use crate::text::decimal;
use crate::text::pieces;
use crate::text::push_decimal;
use crate::text::same_text;
use crate::text::split;
use crate::text::strip_prefix;
use crate::text::texts;
use vstd::prelude::*;
use vstd::string::StrSliceExecFns;
use vstd::string::StringExecFns;
use vstd::utf8::encode_utf8;

verus! {

#[verifier::external_type_specification]
#[verifier::external_body]
pub struct ExIoError(std::io::Error);

/// What can go wrong during the handshake.
#[derive(Debug)]
pub enum HandshakeError {
    /// The daemon did not list its mechanisms.
    NoMechanism,
    /// None of the mechanisms that the daemon listed let the client in.
    NoAuthentication,
    /// The daemon refused an authentication; its answer is kept as it came.
    AuthenticationError(String),
    /// The daemon refused to pass file descriptors; its answer is kept as it came.
    NegotiateUnixFdError(String),
    /// The transport failed.
    IoError(std::io::Error),
}

/// What a [`HandshakeError`] says, without the details that the standard library keeps of a
/// transport error.
pub enum HandshakeFault {
    NoMechanism,
    NoAuthentication,
    AuthenticationError(Seq<char>),
    NegotiateUnixFdError(Seq<char>),
    IoError,
}

impl HandshakeError {
    /// What the error says.
    pub open spec fn fault(self) -> HandshakeFault {
        match self {
            HandshakeError::NoMechanism => HandshakeFault::NoMechanism,
            HandshakeError::NoAuthentication => HandshakeFault::NoAuthentication,
            HandshakeError::AuthenticationError(answer) => HandshakeFault::AuthenticationError(
                answer@,
            ),
            HandshakeError::NegotiateUnixFdError(answer) => HandshakeFault::NegotiateUnixFdError(
                answer@,
            ),
            HandshakeError::IoError(_) => HandshakeFault::IoError,
        }
    }
}

/// What the handshake waits for.
#[derive(Clone, Copy, Debug, PartialEq, Eq, Structural)]
pub enum Stage {
    /// The list of mechanisms, after `AUTH`.
    Mechanisms,
    /// The answer to an authentication.
    Authenticating,
    /// The answer to `NEGOTIATE_UNIX_FD`.
    UnixFd,
}

/// A handshake that waits for an answer of the daemon.
pub struct Handshake {
    stage: Stage,
    uid: u32,
    negotiate_unix_fd: bool,
    mechanisms: Vec<String>,
    tried: usize,
}

/// The mathematical content of a [`Handshake`].
#[verifier::ext_equal]
pub struct HandshakeView {
    /// What the handshake waits for.
    pub stage: Stage,
    /// The user id that `EXTERNAL` presents.
    pub uid: u32,
    /// Whether the passing of file descriptors is to be negotiated.
    pub negotiate_unix_fd: bool,
    /// The mechanisms that the daemon listed and that were not tried yet, in its order.
    pub remaining: Seq<Seq<char>>,
}

/// What the handshake does next.
pub enum Next {
    /// Write this line, read the answer and hand it to the handshake.
    Send(Handshake, String),
    /// Write this line. The handshake is over: the transport carries messages from here on.
    Begin(String),
    /// The handshake failed.
    Fail(HandshakeError),
}

/// The mathematical content of a [`Next`].
#[verifier::ext_equal]
pub enum NextView {
    Send(HandshakeView, Seq<char>),
    Begin(Seq<char>),
    Fail(HandshakeFault),
}

impl View for Handshake {
    type V = HandshakeView;

    closed spec fn view(&self) -> HandshakeView {
        HandshakeView {
            stage: self.stage,
            uid: self.uid,
            negotiate_unix_fd: self.negotiate_unix_fd,
            remaining: if self.tried <= self.mechanisms.len() {
                texts(self.mechanisms@).skip(self.tried as int)
            } else {
                Seq::empty()
            },
        }
    }
}

impl View for Next {
    type V = NextView;

    open spec fn view(&self) -> NextView {
        match self {
            Next::Send(handshake, line) => NextView::Send(handshake@, line@),
            Next::Begin(line) => NextView::Begin(line@),
            Next::Fail(e) => NextView::Fail(e.fault()),
        }
    }
}

/// The line that authenticates with `EXTERNAL`: the credential is the user id, written in
/// decimal and then as hexadecimal digits.
pub open spec fn external_line(uid: u32) -> Seq<char> {
    "AUTH EXTERNAL "@ + hex_text(encode_utf8(decimal(uid as nat)))
}

/// How the handshake fails when no mechanism is left to try: with the answer of the daemon
/// to the last authentication, if one was tried.
pub open spec fn exhausted(refusal: Option<Seq<char>>) -> HandshakeFault {
    match refusal {
        Some(answer) => HandshakeFault::AuthenticationError(answer),
        None => HandshakeFault::NoAuthentication,
    }
}

/// What follows when the mechanisms in `remaining` are still to be tried: the first of them
/// that the client supports is tried, and without one the handshake fails.
pub open spec fn proposal(uid: u32, negotiate_unix_fd: bool, remaining: Seq<Seq<char>>, refusal: Option<Seq<char>>) -> NextView
    decreases remaining.len(),
{
    if remaining.len() == 0 {
        NextView::Fail(exhausted(refusal))
    } else if remaining[0] == "EXTERNAL"@ {
        NextView::Send(
            HandshakeView {
                stage: Stage::Authenticating,
                uid,
                negotiate_unix_fd,
                remaining: remaining.skip(1),
            },
            external_line(uid),
        )
    } else if remaining[0] == "ANONYMOUS"@ {
        NextView::Send(
            HandshakeView {
                stage: Stage::Authenticating,
                uid,
                negotiate_unix_fd,
                remaining: remaining.skip(1),
            },
            "AUTH ANONYMOUS 646275732d6173796e63"@,
        )
    } else {
        proposal(uid, negotiate_unix_fd, remaining.skip(1), refusal)
    }
}

/// Whether a list of mechanisms names none: all its pieces are empty.
pub open spec fn names_nothing(mechanisms: Seq<Seq<char>>) -> bool {
    forall|i: int| 0 <= i < mechanisms.len() ==> (#[trigger] mechanisms[i]).len() == 0
}

/// What follows an answer of the daemon.
///
/// After `AUTH` the daemon is to reject and list its mechanisms, separated by blanks. The
/// mechanisms are tried in its order. An authentication succeeds when the answer begins
/// with `OK `; any other answer is a refusal, after which the next mechanism is tried, and
/// the last refusal is what the handshake fails with. The passing of file descriptors is
/// agreed to with exactly `AGREE_UNIX_FD`.
pub open spec fn answer_to(state: HandshakeView, response: Seq<char>) -> NextView {
    match state.stage {
        Stage::Mechanisms => if !"REJECTED "@.is_prefix_of(response) || names_nothing(
            pieces(response.skip("REJECTED "@.len() as int), ' '),
        ) {
            NextView::Fail(HandshakeFault::NoMechanism)
        } else {
            proposal(
                state.uid,
                state.negotiate_unix_fd,
                pieces(response.skip("REJECTED "@.len() as int), ' '),
                None,
            )
        },
        Stage::Authenticating => if "OK "@.is_prefix_of(response) {
            if state.negotiate_unix_fd {
                NextView::Send(
                    HandshakeView { stage: Stage::UnixFd, ..state },
                    "NEGOTIATE_UNIX_FD"@,
                )
            } else {
                NextView::Begin("BEGIN"@)
            }
        } else {
            proposal(state.uid, state.negotiate_unix_fd, state.remaining, Some(response))
        },
        Stage::UnixFd => if response == "AGREE_UNIX_FD"@ {
            NextView::Begin("BEGIN"@)
        } else {
            NextView::Fail(HandshakeFault::NegotiateUnixFdError(response))
        },
    }
}

/// The handshake ends only after the daemon has accepted an authentication, and, where the
/// passing of file descriptors is negotiated, has agreed to that too.
pub proof fn lemma_begin_needs_consent(state: HandshakeView, response: Seq<char>)
    requires
        answer_to(state, response) is Begin,
    ensures
        answer_to(state, response) == NextView::Begin("BEGIN"@),
        state.stage == Stage::Authenticating ==> "OK "@.is_prefix_of(response)
            && !state.negotiate_unix_fd,
        state.stage == Stage::UnixFd ==> response == "AGREE_UNIX_FD"@,
        state.stage != Stage::Mechanisms,
{
    if state.stage == Stage::Mechanisms {
        lemma_proposal_never_begins(
            state.uid,
            state.negotiate_unix_fd,
            pieces(response.skip("REJECTED "@.len() as int), ' '),
            None,
        );
    } else if state.stage == Stage::Authenticating && !"OK "@.is_prefix_of(response) {
        lemma_proposal_never_begins(
            state.uid,
            state.negotiate_unix_fd,
            state.remaining,
            Some(response),
        );
    }
}

/// Trying the next mechanism sends an authentication or fails; it never ends the handshake.
pub proof fn lemma_proposal_never_begins(uid: u32, negotiate_unix_fd: bool, remaining: Seq<Seq<char>>, refusal: Option<Seq<char>>)
    ensures
        !(proposal(uid, negotiate_unix_fd, remaining, refusal) is Begin),
        proposal(uid, negotiate_unix_fd, remaining, refusal) matches NextView::Send(next, line)
            ==> next.stage == Stage::Authenticating && (line == external_line(uid) || line
            == "AUTH ANONYMOUS 646275732d6173796e63"@),
    decreases remaining.len(),
{
    if remaining.len() > 0 && remaining[0] != "EXTERNAL"@ && remaining[0] != "ANONYMOUS"@ {
        lemma_proposal_never_begins(uid, negotiate_unix_fd, remaining.skip(1), refusal);
    }
}

/// The bytes that open the conversation: the nonce, if the transport asks for one, and one
/// zero byte.
pub fn preamble(nonce: &Option<[u8; 16]>) -> (bytes: Vec<u8>)
    ensures
        bytes@ == match *nonce {
            Some(nonce) => nonce@.push(0u8),
            None => seq![0u8],
        },
{
    let mut bytes: Vec<u8> = Vec::new();
    if let Some(nonce) = nonce {
        let mut i: usize = 0;
        while i < 16
            invariant
                i <= 16,
                bytes@ == nonce@.take(i as int),
            decreases 16 - i,
        {
            bytes.push(nonce[i]);
            i += 1;
        }
    }
    bytes.push(0u8);
    bytes
}

/// A line as it goes over the transport: with a carriage return and a line feed at its
/// end.
pub fn write_line(line: &str) -> (framed: String)
    ensures
        framed@ == line@ + "\r\n"@,
{
    let mut framed = String::from_str(line);
    framed.append("\r\n");
    framed
}

/// A line as it came over the transport, without the carriage return and line feed at its
/// end, if it has them.
pub fn read_line(line: String) -> (answer: String)
    ensures
        answer@ == if crate::text::ends_with(line@, "\r\n"@) {
            line@.take(line@.len() - "\r\n"@.len())
        } else {
            line@
        },
{
    crate::text::strip_suffix(line, "\r\n")
}

impl Handshake {
    /// A handshake for the user `uid`, and the line that opens it. After authentication the
    /// passing of file descriptors is negotiated if `negotiate_unix_fd` is set.
    pub fn new(uid: u32, negotiate_unix_fd: bool) -> (start: (Handshake, String))
        ensures
            start.0@ == (HandshakeView {
                stage: Stage::Mechanisms,
                uid,
                negotiate_unix_fd,
                remaining: Seq::empty(),
            }),
            start.1@ == "AUTH"@,
    {
        let handshake = Handshake {
            stage: Stage::Mechanisms,
            uid,
            negotiate_unix_fd,
            mechanisms: Vec::new(),
            tried: 0,
        };
        (handshake, String::from_str("AUTH"))
    }

    /// The line that authenticates with `EXTERNAL`.
    pub fn auth_external(&self) -> (line: String)
        ensures
            line@ == external_line(self@.uid),
    {
        let mut uid = String::new();
        push_decimal(&mut uid, self.uid);
        let mut line = String::from_str("AUTH EXTERNAL ");
        line.append(hex_of(uid.as_str().as_bytes()).as_str());
        line
    }

    /// The line that authenticates with `ANONYMOUS`.
    pub fn auth_anonymous(&self) -> (line: String)
        ensures
            line@ == "AUTH ANONYMOUS 646275732d6173796e63"@,
    {
        String::from_str("AUTH ANONYMOUS 646275732d6173796e63")
    }

    /// Tries the next mechanism that the client supports. `refusal` is the answer of the
    /// daemon to the authentication before, if there was one.
    pub fn authenticate(self, refusal: Option<String>) -> (next: Next)
        ensures
            next@ == proposal(
                self@.uid,
                self@.negotiate_unix_fd,
                self@.remaining,
                crate::wire::text_of(refusal),
            ),
    {
        let mut handshake = self;
        let ghost state = handshake@;
        let ghost refused = crate::wire::text_of(refusal);
        if handshake.tried <= handshake.mechanisms.len() {
            while handshake.tried < handshake.mechanisms.len()
                invariant
                    state == self@,
                    refused == crate::wire::text_of(refusal),
                    handshake.tried <= handshake.mechanisms.len(),
                    handshake.uid == state.uid,
                    handshake.negotiate_unix_fd == state.negotiate_unix_fd,
                    proposal(state.uid, state.negotiate_unix_fd, state.remaining, refused)
                        == proposal(
                        state.uid,
                        state.negotiate_unix_fd,
                        handshake@.remaining,
                        refused,
                    ),
                decreases handshake.mechanisms.len() - handshake.tried,
            {
                let ghost remaining = handshake@.remaining;
                assert(remaining.skip(1) =~= texts(handshake.mechanisms@).skip(
                    handshake.tried as int + 1,
                ));
                let external = same_text(handshake.mechanisms[handshake.tried].as_str(), "EXTERNAL");
                let anonymous = same_text(
                    handshake.mechanisms[handshake.tried].as_str(),
                    "ANONYMOUS",
                );
                handshake.tried = handshake.tried + 1;
                if external {
                    let line = handshake.auth_external();
                    handshake.stage = Stage::Authenticating;
                    let next = Next::Send(handshake, line);
                    return next;
                } else if anonymous {
                    let line = handshake.auth_anonymous();
                    handshake.stage = Stage::Authenticating;
                    let next = Next::Send(handshake, line);
                    return next;
                }
            }
        }
        match refusal {
            Some(answer) => Next::Fail(HandshakeError::AuthenticationError(answer)),
            None => Next::Fail(HandshakeError::NoAuthentication),
        }
    }

    /// Takes an answer of the daemon and says what follows.
    pub fn receive(self, response: &str) -> (next: Next)
        ensures
            next@ == answer_to(self@, response@),
    {
        let mut handshake = self;
        match handshake.stage {
            Stage::Mechanisms => match strip_prefix(response, "REJECTED ") {
                Some(mechanisms) => {
                    let list = split(mechanisms.as_str(), ' ');
                    if list_names_nothing(&list) {
                        return Next::Fail(HandshakeError::NoMechanism);
                    }
                    handshake.mechanisms = list;
                    handshake.tried = 0;
                    assert(handshake@.remaining =~= pieces(mechanisms@, ' '));
                    handshake.authenticate(None)
                },
                None => Next::Fail(HandshakeError::NoMechanism),
            },
            Stage::Authenticating => {
                if strip_prefix(response, "OK ").is_some() {
                    if handshake.negotiate_unix_fd {
                        handshake.stage = Stage::UnixFd;
                        Next::Send(handshake, String::from_str("NEGOTIATE_UNIX_FD"))
                    } else {
                        Next::Begin(String::from_str("BEGIN"))
                    }
                } else {
                    handshake.authenticate(Some(String::from_str(response)))
                }
            },
            Stage::UnixFd => {
                if same_text(response, "AGREE_UNIX_FD") {
                    Next::Begin(String::from_str("BEGIN"))
                } else {
                    Next::Fail(HandshakeError::NegotiateUnixFdError(String::from_str(response)))
                }
            },
        }
    }
}

/// Whether a list of mechanisms names none.
pub fn list_names_nothing(mechanisms: &Vec<String>) -> (nothing: bool)
    ensures
        nothing == names_nothing(texts(mechanisms@)),
{
    let mut i: usize = 0;
    while i < mechanisms.len()
        invariant
            i <= mechanisms.len(),
            forall|j: int| 0 <= j < i ==> (#[trigger] texts(mechanisms@)[j]).len() == 0,
        decreases mechanisms.len() - i,
    {
        if mechanisms[i].as_str().unicode_len() != 0 {
            assert(texts(mechanisms@)[i as int].len() != 0);
            return false;
        }
        i += 1;
    }
    true
}

} // verus!
