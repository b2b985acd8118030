//! The decisions of a SpiceAPI connection: the cipher for a password, null-byte
//! framing of requests and responses, retrying failed requests, and the session
//! refresh. The connection itself (socket, reads and writes) drives these steps.
use vstd::prelude::*;

use vstd::string::StringSliceAdditionalSpecFns;
use vstd::utf8::encode_utf8;

use crate::error::{IoErrorKind, ProtocolError, ProtocolErrorView};
use crate::json::{items_view, Json, JsonView};
use crate::rc4::{advance, apply_keystream, initial_state, lemma_crypt_in_pieces, Rc4, Rc4State};
use crate::request::{following_id, Request, RequestIds, RequestView};

verus! {

/// How many times a failed request is retried (after its first attempt) before giving up.
pub const MAX_RETRIES: u32 = 3;

/// The byte that ends every message on the wire.
pub const TERMINATOR: u8 = 0;

/// The state of an optional cipher (`None`: the connection is plaintext).
pub open spec fn cipher_state(c: Option<Rc4>) -> Option<Rc4State> {
    match c {
        Some(r) => Some(r@),
        None => None,
    }
}

/// What the optional cipher makes of `bytes` (encryption and decryption are the same).
pub open spec fn apply_cipher(c: Option<Rc4State>, bytes: Seq<u8>) -> Seq<u8> {
    match c {
        Some(st) => apply_keystream(st, bytes),
        None => bytes,
    }
}

/// The optional cipher after it has processed `n` bytes.
pub open spec fn cipher_after(c: Option<Rc4State>, n: nat) -> Option<Rc4State> {
    match c {
        Some(st) => Some(advance(st, n)),
        None => None,
    }
}

/// The cipher for `password`: none for an empty password (plaintext),
/// otherwise RC4 keyed with the password's UTF-8 bytes.
pub fn make_cipher(password: &str) -> (c: Option<Rc4>)
    ensures
        password@.len() == 0 ==> c is None,
        password@.len() != 0 ==> cipher_state(c) == Some(initial_state(password.spec_bytes())),
{
    if password.is_empty() {
        None
    } else {
        Some(Rc4::new(password.as_bytes()))
    }
}

/// Frames a request payload for the wire: appends the terminator and encrypts
/// the whole frame with the cipher, if there is one.
pub fn frame_request(payload: Vec<u8>, cipher: &mut Option<Rc4>) -> (frame: Vec<u8>)
    ensures
        frame@ == apply_cipher(cipher_state(*old(cipher)), payload@.push(TERMINATOR)),
        cipher_state(*final(cipher)) == cipher_after(cipher_state(*old(cipher)), payload@.len() + 1),
{
    let mut data = payload;
    data.push(TERMINATOR);
    match cipher {
        Some(c) => {
            c.crypt(data.as_mut_slice());
        },
        None => {},
    }
    data
}

/// The outcome of receiving one chunk.
pub enum ChunkOutcome {
    /// The server closed the connection (an empty read).
    Closed,
    /// The message goes on in later chunks.
    Pending,
    /// The message is complete; holds its payload (the terminator removed).
    Complete(Seq<u8>),
}

/// Receiving `chunk` with `buffered` bytes of the message already received and the
/// cipher in state `c`: the outcome, the bytes buffered after it, and the cipher after it.
///
/// The chunk is decrypted; the message is complete when the chunk's last decrypted
/// byte is the terminator.
pub open spec fn receive_step(buffered: Seq<u8>, c: Option<Rc4State>, chunk: Seq<u8>) -> (ChunkOutcome, Seq<u8>, Option<Rc4State>) {
    if chunk.len() == 0 {
        (ChunkOutcome::Closed, buffered, c)
    } else {
        let plain = apply_cipher(c, chunk);
        let c2 = cipher_after(c, chunk.len());
        if plain.last() == TERMINATOR {
            (ChunkOutcome::Complete(buffered + plain.drop_last()), Seq::empty(), c2)
        } else {
            (ChunkOutcome::Pending, buffered + plain, c2)
        }
    }
}

/// Receiving the chunks one after the other: the payload of the first complete
/// message, or `None` if the connection closed first or the chunks ran out.
pub open spec fn receive_chunks(buffered: Seq<u8>, c: Option<Rc4State>, chunks: Seq<Seq<u8>>) -> Option<Seq<u8>>
    decreases chunks.len(),
{
    if chunks.len() == 0 {
        None
    } else {
        let (outcome, buffered2, c2) = receive_step(buffered, c, chunks[0]);
        match outcome {
            ChunkOutcome::Complete(payload) => Some(payload),
            ChunkOutcome::Closed => None,
            ChunkOutcome::Pending => receive_chunks(buffered2, c2, chunks.drop_first()),
        }
    }
}

/// Whether `bytes` holds no terminator byte.
pub open spec fn free_of_terminator(bytes: Seq<u8>) -> bool {
    forall|k: int| 0 <= k < bytes.len() ==> bytes[k] != TERMINATOR
}

proof fn lemma_apply_cipher_split(c: Option<Rc4State>, a: Seq<u8>, b: Seq<u8>)
    ensures
        apply_cipher(c, a + b) == apply_cipher(c, a) + apply_cipher(cipher_after(c, a.len()), b),
        apply_cipher(c, a).len() == a.len(),
{
    match c {
        Some(st) => {
            lemma_crypt_in_pieces(st, a, b);
        },
        None => {},
    }
}

proof fn lemma_receive_rest(buffered: Seq<u8>, c: Option<Rc4State>, rest: Seq<u8>, payload: Seq<u8>, chunks: Seq<Seq<u8>>)
    requires
        free_of_terminator(payload),
        rest.len() > 0,
        rest.last() == TERMINATOR,
        free_of_terminator(rest.drop_last()),
        buffered + rest.drop_last() == payload,
        forall|k: int| 0 <= k < chunks.len() ==> (#[trigger] chunks[k]).len() > 0,
        chunks.flatten() == apply_cipher(c, rest),
    ensures
        receive_chunks(buffered, c, chunks) == Some(payload),
    decreases chunks.len(),
{
    let sealed = apply_cipher(c, rest);
    lemma_apply_cipher_split(c, rest, Seq::empty());
    assert(rest + Seq::<u8>::empty() =~= rest);
    if chunks.len() == 0 {
        assert(chunks.flatten() =~= Seq::<u8>::empty());
        assert(false);
    }
    let first = chunks[0];
    let others = chunks.drop_first();
    assert(chunks.flatten() == first + others.flatten());
    let n = first.len();
    assert(n <= rest.len()) by {
        assert((first + others.flatten()).len() == sealed.len());
    }
    let head = rest.subrange(0, n as int);
    let tail = rest.subrange(n as int, rest.len() as int);
    assert(rest =~= head + tail);
    lemma_apply_cipher_split(c, head, tail);
    assert(first =~= apply_cipher(c, head)) by {
        assert(first =~= (first + others.flatten()).subrange(0, n as int));
    }
    assert(others.flatten() =~= apply_cipher(cipher_after(c, n), tail)) by {
        assert(others.flatten() =~= (first + others.flatten()).subrange(n as int, sealed.len() as int));
    }
    lemma_apply_cipher_split(cipher_after(c, n), tail, Seq::empty());
    let c2 = cipher_after(c, n);
    // the first chunk decrypts to the first `n` bytes of the frame
    lemma_apply_cipher_roundtrip(c, head);
    let plain = apply_cipher(c, first);
    assert(plain == head);
    if n == rest.len() {
        assert(plain.last() == TERMINATOR);
        assert(plain.drop_last() =~= rest.drop_last());
    } else {
        assert(plain.last() == rest[n - 1]);
        assert(rest.drop_last()[n - 1] == rest[n - 1]);
        assert(plain.last() != TERMINATOR);
        if others.len() == 0 {
            assert(others.flatten() =~= Seq::<u8>::empty());
            assert(tail.len() > 0);
            assert(false);
        }
        assert forall|k: int| 0 <= k < others.len() implies (#[trigger] others[k]).len() > 0 by {
            assert(others[k] == chunks[k + 1]);
        }
        assert(tail.drop_last() =~= rest.drop_last().subrange(n as int, rest.len() - 1));
        assert((buffered + plain) + tail.drop_last() =~= payload);
        lemma_receive_rest(buffered + plain, c2, tail, payload, others);
    }
}

proof fn lemma_apply_cipher_roundtrip(c: Option<Rc4State>, bytes: Seq<u8>)
    ensures
        apply_cipher(c, apply_cipher(c, bytes)) == bytes,
{
    match c {
        Some(st) => {
            crate::rc4::lemma_crypt_roundtrip(st, bytes);
        },
        None => {},
    }
}

/// What a receiver gets back of what a sender framed: when the sender's and the
/// receiver's ciphers start in the same state, a payload free of terminator bytes,
/// framed and delivered in any split into non-empty chunks, is received complete
/// and unchanged, at its last chunk.
pub proof fn lemma_framed_payload_is_received(c: Option<Rc4State>, payload: Seq<u8>, chunks: Seq<Seq<u8>>)
    requires
        free_of_terminator(payload),
        forall|k: int| 0 <= k < chunks.len() ==> (#[trigger] chunks[k]).len() > 0,
        chunks.flatten() == apply_cipher(c, payload.push(TERMINATOR)),
    ensures
        receive_chunks(Seq::empty(), c, chunks) == Some(payload),
{
    let rest = payload.push(TERMINATOR);
    assert(rest.drop_last() =~= payload);
    assert(Seq::<u8>::empty() + rest.drop_last() =~= payload);
    lemma_receive_rest(Seq::empty(), c, rest, payload, chunks);
}

/// Collects the chunks of one response message.
pub struct Receiver {
    buffered: Vec<u8>,
}

impl View for Receiver {
    type V = Seq<u8>;

    /// The bytes of the message received so far.
    closed spec fn view(&self) -> Seq<u8> {
        self.buffered@
    }
}

/// The message of the error for a connection that the server closed.
pub open spec fn closed_by_server_message() -> Seq<char> {
    "connection closed by server"@
}

impl Receiver {
    /// A receiver at the start of a message.
    pub fn new() -> (r: Self)
        ensures
            r@ == Seq::<u8>::empty(),
    {
        Receiver { buffered: Vec::new() }
    }

    /// Receive one chunk as read from the connection: decrypt it in place, and
    /// return the message's payload if this chunk completes it.
    ///
    /// An empty chunk means that the server closed the connection: the error is a
    /// connection reset, and nothing received so far is handed out.
    pub fn absorb(&mut self, chunk: &mut [u8], cipher: &mut Option<Rc4>) -> (r: Result<Option<Vec<u8>>, ProtocolError>)
        ensures
            ({
                let (outcome, buffered, c) = receive_step(old(self)@, cipher_state(*old(cipher)), old(chunk)@);
                &&& final(self)@ == buffered
                &&& cipher_state(*final(cipher)) == c
                &&& final(chunk)@ == apply_cipher(cipher_state(*old(cipher)), old(chunk)@)
                &&& match outcome {
                    ChunkOutcome::Closed => r matches Err(e) && e@ == ProtocolErrorView::Connection(
                        IoErrorKind::ConnectionReset,
                        closed_by_server_message(),
                    ),
                    ChunkOutcome::Pending => r matches Ok(None),
                    ChunkOutcome::Complete(payload) => r matches Ok(Some(p)) && p@ == payload,
                }
            }),
    {
        let n = chunk.len();
        if n == 0 {
            let msg = String::from_str("connection closed by server");
            return Err(ProtocolError::Connection(IoErrorKind::ConnectionReset, msg));
        }
        match cipher {
            Some(c) => {
                c.crypt(chunk);
            },
            None => {},
        }
        let last = chunk[n - 1];
        let keep = if last == TERMINATOR { n - 1 } else { n };
        let ghost before = self.buffered@;
        for k in 0..keep
            invariant
                keep <= n,
                n == chunk@.len(),
                self.buffered@ == before + chunk@.subrange(0, k as int),
        {
            self.buffered.push(chunk[k]);
            assert(self.buffered@ =~= before + chunk@.subrange(0, k + 1));
        }
        if last == TERMINATOR {
            let mut payload: Vec<u8> = Vec::new();
            std::mem::swap(&mut payload, &mut self.buffered);
            assert(chunk@.subrange(0, keep as int) =~= chunk@.drop_last());
            Ok(Some(payload))
        } else {
            assert(chunk@.subrange(0, keep as int) =~= chunk@);
            Ok(None)
        }
    }
}

/// A received payload, or `MalformedResponse` where it is empty.
pub fn nonempty_payload(payload: Vec<u8>) -> (r: Result<Vec<u8>, ProtocolError>)
    ensures
        payload@.len() == 0 ==> (r matches Err(e) && e@ == ProtocolErrorView::MalformedResponse),
        payload@.len() != 0 ==> (r matches Ok(p) && p@ == payload@),
{
    if payload.len() == 0 {
        Err(ProtocolError::MalformedResponse)
    } else {
        Ok(payload)
    }
}

/// The retry policy of a request: a first attempt and up to `MAX_RETRIES` retries;
/// an API error or an ID mismatch ends the request at once, as does success; any
/// other error is remembered and retried after a reconnect.
pub struct RetryState {
    attempts: u32,
    last_error: Option<ProtocolError>,
}

/// The mathematical value of a retry state.
pub struct RetryView {
    /// The attempts that failed so far.
    pub failed: nat,
    /// The error of the last failed attempt.
    pub last_error: Option<ProtocolErrorView>,
}

/// The value of an optional error.
pub open spec fn optional_error_view(e: Option<ProtocolError>) -> Option<ProtocolErrorView> {
    match e {
        Some(x) => Some(x@),
        None => None,
    }
}

/// The value of the result of a request.
pub open spec fn data_result_view(r: Result<Vec<Json>, ProtocolError>) -> Result<Seq<JsonView>, ProtocolErrorView> {
    match r {
        Ok(d) => Ok(items_view(d@)),
        Err(e) => Err(e@),
    }
}

/// The error a request ends with when every attempt failed: the number of
/// attempts made, and the error of the last one.
pub open spec fn exhausted_error(failed: nat, last_error: Option<ProtocolErrorView>) -> ProtocolErrorView {
    ProtocolErrorView::RetriesExhausted {
        attempts: failed as u32,
        source: Box::new(
            match last_error {
                Some(e) => e,
                None => ProtocolErrorView::MalformedResponse,
            },
        ),
    }
}

impl View for RetryState {
    type V = RetryView;

    closed spec fn view(&self) -> RetryView {
        RetryView { failed: self.attempts as nat, last_error: optional_error_view(self.last_error) }
    }
}

impl RetryState {
    /// The state before the first attempt.
    pub fn new() -> (r: Self)
        ensures
            r@ == (RetryView { failed: 0, last_error: None }),
    {
        RetryState { attempts: 0, last_error: None }
    }

    /// Whether another attempt may be made: the first attempt, or a retry while
    /// fewer than `MAX_RETRIES` retries were made.
    pub fn can_attempt(&self) -> (r: bool)
        ensures
            r == (self@.failed <= MAX_RETRIES),
    {
        self.attempts <= MAX_RETRIES
    }

    /// Records the outcome of an attempt. Returns the request's result where the
    /// request ends here; `None` where the connection is to be re-established and
    /// the request attempted again (if attempts are left).
    pub fn record(&mut self, outcome: Result<Vec<Json>, ProtocolError>) -> (r: Option<Result<Vec<Json>, ProtocolError>>)
        requires
            old(self)@.failed <= MAX_RETRIES,
        ensures
            match outcome {
                Ok(_) => r matches Some(res) && data_result_view(res) == data_result_view(outcome)
                    && final(self)@ == old(self)@,
                Err(e) => if e.is_server_answer() {
                    r matches Some(res) && data_result_view(res) == data_result_view(outcome)
                        && final(self)@ == old(self)@
                } else {
                    r is None && final(self)@ == (RetryView { failed: old(self)@.failed + 1, last_error: Some(e@) })
                },
            },
            final(self)@.failed <= MAX_RETRIES + 1,
    {
        match outcome {
            Ok(d) => Some(Ok(d)),
            Err(e) => {
                if e.server_answered() {
                    Some(Err(e))
                } else {
                    self.attempts = self.attempts + 1;
                    self.last_error = Some(e);
                    None
                }
            },
        }
    }

    /// The error that ends a request after every attempt failed: `RetriesExhausted`
    /// with the number of attempts made and the error of the last attempt (or
    /// `MalformedResponse` if none was recorded).
    pub fn exhausted(self) -> (e: ProtocolError)
        ensures
            e@ == exhausted_error(self@.failed, self@.last_error),
    {
        let source = match self.last_error {
            Some(e) => e,
            None => ProtocolError::MalformedResponse,
        };
        assert(source@ == match self@.last_error {
            Some(x) => x,
            None => ProtocolErrorView::MalformedResponse,
        });
        let e = ProtocolError::RetriesExhausted { attempts: self.attempts, source: Box::new(source) };
        assert(e@ == exhausted_error(self@.failed, self@.last_error));
        e
    }
}

/// A request for one attempt: the next ID of `ids`, and copies of `params`.
pub fn prepare_request(ids: &mut RequestIds, module: &str, function: &str, params: &Vec<Json>) -> (req: Request)
    ensures
        req@ == (RequestView { id: old(ids)@, module: module@, function: function@, params: items_view(params@) }),
        final(ids)@ == following_id(old(ids)@),
{
    let mut req = Request::new(ids, module, function);
    assert(items_view(params@).take(0) =~= Seq::<JsonView>::empty());
    for k in 0..params.len()
        invariant
            req@ == (RequestView { id: old(ids)@, module: module@, function: function@, params: items_view(params@).take(k as int) }),
    {
        req.add_param(params[k].copy());
        assert(items_view(params@).take(k as int).push(params@[k as int]@) =~= items_view(params@).take(k + 1));
    }
    assert(items_view(params@).take(params@.len() as int) =~= items_view(params@));
    req
}

/// The password that a session refresh hands out: the response's first datum, if it is a string.
pub open spec fn refreshed_password_of(data: Seq<JsonView>) -> Option<Seq<char>> {
    if data.len() > 0 && data[0] is Str {
        Some(data[0]->Str_0)
    } else {
        None
    }
}

/// A session refresh takes the reply's first datum as the new password when it is
/// a string, whatever follows it; a reply without data, or whose first datum is not
/// a string, hands out no password.
pub proof fn lemma_refreshed_password_is_first_string(p: Seq<char>, other: JsonView, rest: Seq<JsonView>)
    ensures
        refreshed_password_of(seq![JsonView::Str(p)] + rest) == Some(p),
        !(other is Str) ==> refreshed_password_of(seq![other] + rest) is None,
        refreshed_password_of(Seq::empty()) is None,
{
    assert((seq![JsonView::Str(p)] + rest)[0] == JsonView::Str(p));
    assert((seq![other] + rest)[0] == other);
}

/// Applies the reply to a session refresh: where its first datum is a string, that
/// string becomes the password and the cipher is made anew from it; otherwise
/// both stay as they were.
pub fn refresh_session(password: &mut String, cipher: &mut Option<Rc4>, data: &Vec<Json>)
    ensures
        match refreshed_password_of(items_view(data@)) {
            Some(p) => final(password)@ == p && (p.len() == 0 ==> *final(cipher) is None)
                && (p.len() != 0 ==> cipher_state(*final(cipher)) == Some(initial_state(encode_utf8(p)))),
            None => *final(password) == *old(password) && *final(cipher) == *old(cipher),
        },
{
    match refreshed_password(data) {
        Some(p) => {
            *cipher = make_cipher(p.as_str());
            *password = p;
        },
        None => {},
    }
}

/// The new password from the data of a session-refresh response, if it holds one.
pub fn refreshed_password(data: &Vec<Json>) -> (p: Option<String>)
    ensures
        match p {
            Some(s) => refreshed_password_of(items_view(data@)) == Some(s@),
            None => refreshed_password_of(items_view(data@)) is None,
        },
{
    if data.len() == 0 {
        return None;
    }
    match &data[0] {
        Json::Str(s) => Some(s.clone()),
        _ => None,
    }
}

} // verus!
