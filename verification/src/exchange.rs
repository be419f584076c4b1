//! The decisions of an HTTP GET exchange over a TCP socket: connect, send
//! the request, flush, then read until the peer closes or the response
//! buffer is full. The caller performs each socket operation and reports
//! its outcome; every failure ends the exchange with the error of its
//! stage.

use vstd::prelude::*;
use crate::net::{HttpError, copy_truncated, min_int};

verus! {

/// What the exchange needs done next.
#[derive(Debug, Clone, Copy, PartialEq, Eq, Structural)]
pub enum HttpGetStep {
    /// Open the connection.
    Connect,
    /// Write the request.
    Write,
    /// Flush the written request.
    Flush,
    /// Read the next chunk of the response.
    Read,
    /// The exchange is over; see [`HttpGet::outcome`].
    Finished,
}

/// State of one GET exchange.
pub struct HttpGet {
    step: HttpGetStep,
    len: usize,
    outcome: Option<Result<usize, HttpError>>,
    received: Ghost<Seq<u8>>,
    request_len: usize,
    sent: usize,
}

impl HttpGet {
    /// The step the caller performs next.
    pub closed spec fn next(&self) -> HttpGetStep {
        self.step
    }

    /// How the exchange ended, once it has.
    pub closed spec fn result(&self) -> Option<Result<usize, HttpError>> {
        self.outcome
    }

    /// Every byte read from the peer so far.
    pub closed spec fn received(&self) -> Seq<u8> {
        self.received@
    }

    /// Number of response bytes stored so far.
    pub closed spec fn stored(&self) -> int {
        self.len as int
    }

    /// Never more of the request is counted as sent than it has.
    #[verifier::type_invariant]
    closed spec fn sent_within_request(&self) -> bool {
        self.sent <= self.request_len
    }

    /// Length of the request to send.
    pub closed spec fn request_len(&self) -> int {
        self.request_len as int
    }

    /// Number of request bytes sent so far.
    pub closed spec fn sent(&self) -> int {
        self.sent as int
    }

    /// Consistency with the response buffer `response`: the stored bytes
    /// are the first bytes received, as many as were received or as fit,
    /// and the outcome is present exactly when the exchange is over.
    pub closed spec fn wf(&self, response: Seq<u8>) -> bool {
        &&& self.len as int == min_int(self.received@.len() as int, response.len() as int)
        &&& response.take(self.len as int) == self.received@.take(self.len as int)
        &&& (self.step == HttpGetStep::Finished) == self.outcome is Some
        &&& self.step != HttpGetStep::Read ==> self.received@.len() == 0 || self.step
            == HttpGetStep::Finished
        &&& (self.step == HttpGetStep::Flush || self.step == HttpGetStep::Read) ==> self.sent
            == self.request_len
    }

    /// What a consistent exchange guarantees: the stored bytes are the
    /// first bytes received, as many as were received or as fit; nothing is
    /// flushed or read before the whole request has been sent; and there is
    /// an outcome exactly when the exchange is over.
    pub proof fn lemma_wf(&self, response: Seq<u8>)
        requires
            self.wf(response),
        ensures
            self.stored() == min_int(self.received().len() as int, response.len() as int),
            response.take(self.stored()) == self.received().take(self.stored()),
            0 <= self.sent(),
            (self.next() == HttpGetStep::Flush || self.next() == HttpGetStep::Read) ==> self.sent()
                == self.request_len(),
            (self.next() == HttpGetStep::Finished) == self.result() is Some,
    {
    }

    /// A new exchange for a request of `request_len` bytes, about to
    /// connect.
    pub fn new(request_len: usize) -> (g: Self)
        ensures
            g.next() == HttpGetStep::Connect,
            g.request_len() == request_len,
            g.sent() == 0,
            g.received() == Seq::<u8>::empty(),
            g.result() is None,
            forall|response: Seq<u8>| g.wf(response),
    {
        let g = HttpGet {
            step: HttpGetStep::Connect,
            len: 0,
            outcome: None,
            received: Ghost(Seq::empty()),
            request_len,
            sent: 0,
        };
        assert forall|response: Seq<u8>| g.wf(response) by {
            assert(response.take(0) =~= Seq::<u8>::empty());
            assert(g.received@.take(0) =~= Seq::<u8>::empty());
        }
        g
    }

    /// The step the caller performs next.
    pub fn next_step(&self) -> (s: HttpGetStep)
        ensures
            s == self.next(),
    {
        self.step
    }

    /// Number of request bytes sent so far; the next write sends the
    /// request from this offset on.
    pub fn sent_bytes(&self) -> (n: usize)
        ensures
            n == self.sent(),
            n <= self.request_len(),
    {
        proof {
            use_type_invariant(self);
        }
        self.sent
    }

    /// How the exchange ended: `Ok` with the number of bytes stored, or
    /// the error of the stage that failed; `None` while it runs.
    pub fn outcome(&self) -> (r: Option<Result<usize, HttpError>>)
        ensures
            r == self.result(),
    {
        self.outcome
    }

    /// Reports whether the connection was opened.
    pub fn connected(&mut self, ok: bool)
        requires
            old(self).next() == HttpGetStep::Connect,
        ensures
            final(self).received() == old(self).received(),
            final(self).stored() == old(self).stored(),
            final(self).sent() == old(self).sent(),
            final(self).request_len() == old(self).request_len(),
            ok ==> final(self).next() == HttpGetStep::Write && final(self).result() is None,
            !ok ==> final(self).next() == HttpGetStep::Finished && final(self).result() == Some(
                Err::<usize, HttpError>(HttpError::Connect),
            ),
            forall|response: Seq<u8>| old(self).wf(response) ==> final(self).wf(response),
    {
        proof {
            use_type_invariant(&*self);
        }
        if ok {
            self.step = HttpGetStep::Write;
            self.outcome = None;
        } else {
            self.step = HttpGetStep::Finished;
            self.outcome = Some(Err(HttpError::Connect));
        }
    }

    /// Reports the result of writing the unsent rest of the request: `None`
    /// when the write failed, else the number of bytes the socket took.
    /// The exchange flushes once the whole request is sent and writes again
    /// until then.
    pub fn written(&mut self, wrote: Option<usize>)
        requires
            old(self).next() == HttpGetStep::Write,
        ensures
            final(self).received() == old(self).received(),
            final(self).stored() == old(self).stored(),
            final(self).request_len() == old(self).request_len(),
            wrote is None ==> final(self).next() == HttpGetStep::Finished && final(self).result()
                == Some(Err::<usize, HttpError>(HttpError::Send)) && final(self).sent() == old(
                self,
            ).sent(),
            (wrote matches Some(n) ==> {
                &&& final(self).sent() == old(self).sent() + min_int(
                    n as int,
                    old(self).request_len() - old(self).sent(),
                )
                &&& final(self).result() is None
                &&& if final(self).sent() == final(self).request_len() {
                    final(self).next() == HttpGetStep::Flush
                } else {
                    final(self).next() == HttpGetStep::Write
                }
            }),
            forall|response: Seq<u8>| old(self).wf(response) ==> final(self).wf(response),
    {
        proof {
            use_type_invariant(&*self);
        }
        match wrote {
            None => {
                self.step = HttpGetStep::Finished;
                self.outcome = Some(Err(HttpError::Send));
            },
            Some(n) => {
                let left = self.request_len - self.sent;
                let took = if n < left {
                    n
                } else {
                    left
                };
                self.sent = self.sent + took;
                self.outcome = None;
                if self.sent == self.request_len {
                    self.step = HttpGetStep::Flush;
                } else {
                    self.step = HttpGetStep::Write;
                }
            },
        }
    }

    /// Reports whether the request was flushed.
    pub fn flushed(&mut self, ok: bool)
        requires
            old(self).next() == HttpGetStep::Flush,
        ensures
            final(self).received() == old(self).received(),
            final(self).stored() == old(self).stored(),
            final(self).sent() == old(self).sent(),
            final(self).request_len() == old(self).request_len(),
            ok ==> final(self).next() == HttpGetStep::Read && final(self).result() is None,
            !ok ==> final(self).next() == HttpGetStep::Finished && final(self).result() == Some(
                Err::<usize, HttpError>(HttpError::Send),
            ),
            forall|response: Seq<u8>| old(self).wf(response) ==> final(self).wf(response),
    {
        proof {
            use_type_invariant(&*self);
        }
        if ok {
            self.step = HttpGetStep::Read;
            self.outcome = None;
        } else {
            self.step = HttpGetStep::Finished;
            self.outcome = Some(Err(HttpError::Send));
        }
    }

    /// Reports the result of a read: `None` when the read failed, else the
    /// bytes read, empty when the peer closed. The bytes that fit are
    /// stored in `response` after those stored before; the exchange ends
    /// with `Ok` when the peer has closed or `response` is full.
    pub fn read(&mut self, response: &mut [u8], chunk: Option<&[u8]>)
        requires
            old(self).next() == HttpGetStep::Read,
            old(self).wf(old(response)@),
        ensures
            final(self).wf(final(response)@),
            final(response)@.len() == old(response)@.len(),
            final(self).sent() == old(self).sent(),
            final(self).request_len() == old(self).request_len(),
            final(response)@.take(final(self).stored()) == final(self).received().take(
                final(self).stored(),
            ),
            final(response)@.skip(final(self).stored()) == old(response)@.skip(
                final(self).stored(),
            ),
            chunk is None ==> final(self).next() == HttpGetStep::Finished && final(self).result()
                == Some(Err::<usize, HttpError>(HttpError::Receive)) && final(self).received()
                == old(self).received(),
            chunk matches Some(bytes) ==> {
                &&& final(self).received() == old(self).received() + bytes@
                &&& final(self).stored() == min_int(
                    final(self).received().len() as int,
                    old(response)@.len() as int,
                )
                &&& if bytes@.len() == 0 || final(self).stored() == old(response)@.len() {
                    final(self).next() == HttpGetStep::Finished && final(self).result() == Some(
                        Ok::<usize, HttpError>(final(self).stored() as usize),
                    )
                } else {
                    final(self).next() == HttpGetStep::Read && final(self).result() is None
                }
            },
    {
        proof {
            use_type_invariant(&*self);
        }
        match chunk {
            None => {
                self.step = HttpGetStep::Finished;
                self.outcome = Some(Err(HttpError::Receive));
            },
            Some(bytes) => {
                if bytes.len() == 0 {
                    self.step = HttpGetStep::Finished;
                    self.outcome = Some(Ok(self.len));
                    assert(self.received@ + bytes@ =~= self.received@);
                    self.received = Ghost(self.received@ + bytes@);
                } else {
                    let ghost before = self.received@;
                    let n = copy_truncated(response, self.len, bytes);
                    self.len = self.len + n;
                    self.received = Ghost(before + bytes@);
                    assert(response@.take(self.len as int) =~= self.received@.take(
                        self.len as int,
                    ));
                    if self.len == response.len() {
                        self.step = HttpGetStep::Finished;
                        self.outcome = Some(Ok(self.len));
                    }
                }
            },
        }
    }
}

} // verus!
