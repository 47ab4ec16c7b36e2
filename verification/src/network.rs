//! The decision core of the connection layer: the per-connection frame
//! reassembly state machine, the frame-to-response pipeline, and the token
//! pool that hands out connection-table keys. The event loop around it owns
//! the sockets and performs the reads and writes; everything it has to
//! decide between two socket calls is here.

use vstd::prelude::*;

use crate::num::{be_i32_at, be_u32_at};
use crate::parser::primitive::{SpecParsed, MAX_WIRE};
use crate::parser::request::{request_message, spec_request_message};
use crate::proust::{handle_request, spec_handle_request};
use crate::responses::response::{
    encode_response, spec_ser_response_body, spec_ser_response_message,
};

verus! {

/// What one connection is doing: waiting for a new frame, holding a partial
/// size header, or holding a partial frame body that still needs that many
/// bytes. Partial header bytes are kept and completed across readiness
/// events through the same buffer mechanism as the body, never dropped.
#[derive(Debug, Clone, Copy, PartialEq, Eq, Structural)]
pub enum ClientState {
    Normal,
    AwaitHeader,
    Await(usize),
}

/// How a connection-level failure is handled: try again on the next
/// readiness event, or remove the connection.
#[derive(Debug, Clone, Copy, PartialEq, Eq, Structural)]
pub enum ClientErr {
    Continue,
    ShouldClose,
}

pub type ClientResult = Result<usize, ClientErr>;

/// What the event loop passes along its notification channel.
#[derive(Debug)]
pub enum Message {
    Stop,
    Data(Vec<u8>),
    Close(usize),
}

/// The size-header decision: with fewer than four header bytes gathered the
/// frame length is not known yet, so the caller waits for more; with four,
/// the header is the frame body's big-endian signed length, and a negative
/// length is an unrecoverable framing violation that closes the connection.
pub fn parse_size_header(size_buf: &Vec<u8>, n_read: usize) -> (r: ClientResult)
    requires
        n_read == 4 ==> size_buf@.len() >= 4,
    ensures
        n_read != 4 ==> r == ClientResult::Err(ClientErr::Continue),
        n_read == 4 && be_i32_at(size_buf@, 0) < 0 ==> r == ClientResult::Err(
            ClientErr::ShouldClose,
        ),
        n_read == 4 && be_i32_at(size_buf@, 0) >= 0 ==> r == ClientResult::Ok(
            be_u32_at(size_buf@, 0) as usize,
        ),
{
    if n_read != 4 {
        Err(ClientErr::Continue)
    } else {
        let u: u32 = (size_buf[0] as u32) * 0x100_0000 + (size_buf[1] as u32) * 0x1_0000 + (
        size_buf[2] as u32) * 0x100 + (size_buf[3] as u32);
        if u >= 0x8000_0000 {
            Err(ClientErr::ShouldClose)
        } else {
            Ok(u as usize)
        }
    }
}

/// The header-reassembly decision after a burst of reads: with fewer than
/// four header bytes gathered, the connection keeps them and waits for the
/// rest; with four, the header is complete and the size field decides what
/// happens next.
pub fn header_progress(got: usize) -> (r: (ClientState, bool))
    ensures
        got < 4 ==> r == (ClientState::AwaitHeader, false),
        got >= 4 ==> r == (ClientState::Normal, true),
{
    if got < 4 {
        (ClientState::AwaitHeader, false)
    } else {
        (ClientState::Normal, true)
    }
}

/// The reassembly decision after a burst of reads: with the frame still
/// `awaited - filled` bytes short the connection keeps waiting for the body;
/// with the frame full it returns to `Normal` and the frame is dispatched.
pub fn buffer_progress(awaited: usize, filled: usize) -> (r: (ClientState, bool))
    ensures
        filled < awaited ==> r == (ClientState::Await((awaited - filled) as usize), false),
        filled >= awaited ==> r == (ClientState::Normal, true),
{
    if filled < awaited {
        (ClientState::Await(awaited - filled), false)
    } else {
        (ClientState::Normal, true)
    }
}

/// What one assembled frame produces: the framed response bytes to write
/// back, or nothing, when the frame is malformed, unanswered, or beyond what
/// a four-byte length can describe.
pub open spec fn spec_handle_frame(s: Seq<u8>) -> Option<Seq<u8>> {
    if s.len() > MAX_WIRE {
        None
    } else {
        match spec_request_message(s, 0) {
            SpecParsed::Done(_, req) => match spec_handle_request(req) {
                Ok(resp) => if spec_ser_response_body(resp).len() <= MAX_WIRE {
                    Some(spec_ser_response_message(resp))
                } else {
                    None
                },
                Err(_) => None,
            },
            SpecParsed::Incomplete(_) => None,
            SpecParsed::Fail(_) => None,
        }
    }
}

/// One dispatch: decode the assembled frame body, hand the request to the
/// business logic, and encode the response. A frame that cannot be decoded
/// or answered produces no bytes and leaves the connection open, exactly as
/// `spec_handle_frame` says.
pub fn handle_frame(buffer: &Vec<u8>) -> (r: (Option<Vec<u8>>, ClientErr))
    ensures
        r.1 == ClientErr::Continue,
        r.0 matches Some(v) ==> spec_handle_frame(buffer@) == Some(v@),
        r.0 is None ==> spec_handle_frame(buffer@) is None,
{
    if buffer.len() > MAX_WIRE {
        return (None, ClientErr::Continue);
    }
    match request_message(buffer, 0) {
        crate::parser::primitive::Parsed::Done(_, req) => match handle_request(req) {
            Ok(resp) => (encode_response(&resp), ClientErr::Continue),
            Err(_) => (None, ClientErr::Continue),
        },
        crate::parser::primitive::Parsed::Incomplete(_) => (None, ClientErr::Continue),
        crate::parser::primitive::Parsed::Fail(_) => (None, ClientErr::Continue),
    }
}

/// The connection-table key allocator: retired keys are reused before new
/// ones are minted, and a key in use is never handed out again.
pub struct TokenPool {
    pub token_index: usize,
    pub available_tokens: Vec<usize>,
}

impl TokenPool {
    /// The pool's book-keeping is sound: every retired key is below the
    /// high-water mark and retired at most once.
    pub open spec fn wf(self) -> bool {
        &&& forall|i: int|
            0 <= i < self.available_tokens@.len() ==> #[trigger] self.available_tokens@[i]
                < self.token_index
        &&& forall|i: int, j: int|
            0 <= i < j < self.available_tokens@.len() ==> self.available_tokens@[i]
                != self.available_tokens@[j]
    }

    /// The keys currently in use: minted and not retired.
    pub open spec fn live(self) -> Set<int> {
        Set::new(
            |t: int|
                0 <= t < self.token_index && !self.available_tokens@.contains(t as usize),
        )
    }

    /// An empty pool: nothing minted, starting from `first`. The event loop
    /// reserves low keys (its listener) by starting above them.
    pub fn new(first: usize) -> (r: TokenPool)
        ensures
            r.wf(),
            r.token_index == first,
            forall|i: int| 0 <= i < first ==> r.live().contains(i),
    {
        let r = TokenPool { token_index: first, available_tokens: Vec::new() };
        proof {
            assert(forall|i: int| 0 <= i < first ==> r.live().contains(i));
        }
        r
    }

    /// Hands out a key no open connection is using: a retired key if one
    /// waits, else the next unminted one.
    pub fn next_token(&mut self) -> (t: usize)
        requires
            old(self).wf(),
            old(self).token_index < usize::MAX,
        ensures
            final(self).wf(),
            !old(self).live().contains(t as int),
            final(self).live() == old(self).live().insert(t as int),
            final(self).token_index >= old(self).token_index,
    {
        match self.available_tokens.pop() {
            Some(t) => {
                proof {
                    let n = old(self).available_tokens@.len();
                    assert(old(self).available_tokens@[n - 1] == t);
                    assert(old(self).available_tokens@.contains(t));
                    assert(!self.available_tokens@.contains(t)) by {
                        if self.available_tokens@.contains(t) {
                            let i = choose|i: int|
                                0 <= i < self.available_tokens@.len()
                                    && self.available_tokens@[i] == t;
                            assert(old(self).available_tokens@[i] == t);
                        }
                    }
                    assert forall|x: int|
                        0 <= x < self.token_index && x != t as int implies ((
                    #[trigger] self.available_tokens@.contains(x as usize)) <==> old(
                        self,
                    ).available_tokens@.contains(x as usize)) by {
                        let xu = x as usize;
                        if self.available_tokens@.contains(xu) {
                            let i = choose|i: int|
                                0 <= i < self.available_tokens@.len()
                                    && self.available_tokens@[i] == xu;
                            assert(old(self).available_tokens@[i] == xu);
                        }
                        if old(self).available_tokens@.contains(xu) {
                            let i = choose|i: int|
                                0 <= i < n && old(self).available_tokens@[i] == xu;
                            assert(i != n - 1);
                            assert(self.available_tokens@[i] == xu);
                        }
                    }
                    assert(final(self).live() =~= old(self).live().insert(t as int));
                }
                t
            },
            None => {
                let t = self.token_index;
                self.token_index = self.token_index + 1;
                proof {
                    assert(old(self).available_tokens@.len() == 0);
                    assert(final(self).live() =~= old(self).live().insert(t as int));
                }
                t
            },
        }
    }

    /// Retires the key of a closed connection so it can be reused.
    pub fn close(&mut self, token: usize)
        requires
            old(self).wf(),
            old(self).live().contains(token as int),
        ensures
            final(self).wf(),
            final(self).live() == old(self).live().remove(token as int),
    {
        self.available_tokens.push(token);
        proof {
            let n = self.available_tokens@.len();
            assert(old(self).live().contains(token as int));
            assert(token < self.token_index);
            assert(!old(self).available_tokens@.contains(token));
            assert forall|i: int, j: int|
                0 <= i < j < n implies self.available_tokens@[i] != self.available_tokens@[j] by {
                if j == n - 1 {
                    assert(self.available_tokens@[i] == old(self).available_tokens@[i]);
                    assert(old(self).available_tokens@.contains(old(self).available_tokens@[i]));
                }
            }
            assert(self.available_tokens@[n - 1] == token);
            assert(self.available_tokens@.contains(token));
            assert forall|x: int|
                0 <= x < self.token_index && x != token as int implies ((
            #[trigger] self.available_tokens@.contains(x as usize)) <==> old(
                self,
            ).available_tokens@.contains(x as usize)) by {
                let xu = x as usize;
                if self.available_tokens@.contains(xu) {
                    let i = choose|i: int|
                        0 <= i < self.available_tokens@.len() && self.available_tokens@[i] == xu;
                    assert(i != n - 1);
                    assert(old(self).available_tokens@[i] == xu);
                }
                if old(self).available_tokens@.contains(xu) {
                    let i = choose|i: int|
                        0 <= i < old(self).available_tokens@.len() && old(
                            self,
                        ).available_tokens@[i] == xu;
                    assert(self.available_tokens@[i] == xu);
                }
            }
            assert(final(self).live() =~= old(self).live().remove(token as int));
        }
    }
}

} // verus!
