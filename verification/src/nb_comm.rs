//! Non-blocking communication state machines for the MH-Z19C UART interface.

use crate::transport::{
    reads_given, successes, writes_taken, Call, Line, NbError, NbResult, Transport,
};
use vstd::prelude::*;

verus! {

/// How far an operation on a transport has come.
pub struct Progress<E> {
    /// Every call made on the transport so far, oldest first.
    pub log: Seq<Call<E>>,
    /// The calls that make up the whole operation, in their order and each
    /// with the answer that lets the operation go on.
    pub script: Seq<Call<E>>,
    /// How many calls of the script have been made and answered so.
    pub position: nat,
}

impl<E> Progress<E> {
    /// The position lies within the script, and no call of the script is a
    /// refused one.
    pub open spec fn wf(self) -> bool {
        &&& self.position <= self.script.len()
        &&& forall|i: int| 0 <= i < self.script.len() ==> (#[trigger] self.script[i]).succeeded()
    }

    /// Whether the whole script has been played.
    pub open spec fn is_complete(self) -> bool {
        self.position == self.script.len()
    }

    /// The operation went from `self` to `post`: it made the calls of the
    /// script from the old position to the new one, in order and once each,
    /// and, where `answer` is an error, one more call, that of the script at
    /// the new position, which the transport refused with that error. What
    /// was played of the script stays as it was.
    pub open spec fn advanced(self, answer: NbResult<(), E>, post: Progress<E>) -> bool {
        &&& post.wf()
        &&& post.script.len() == self.script.len()
        &&& post.script.take(self.position as int) == self.script.take(self.position as int)
        &&& self.position <= post.position
        &&& answer is Err ==> !post.is_complete()
        &&& post.log == self.log + post.script.subrange(
            self.position as int,
            post.position as int,
        ) + match answer {
            Ok(_) => Seq::empty(),
            Err(error) => seq![post.script[post.position as int].refused(error)],
        }
    }

    /// One poll took the operation from `self` to `post`: it advanced, and
    /// went on until the script was played to its end or the transport
    /// refused a call.
    pub open spec fn polled(self, answer: NbResult<(), E>, post: Progress<E>) -> bool {
        &&& self.advanced(answer, post)
        &&& answer is Ok ==> post.is_complete()
    }

    /// Advancing twice is advancing once, where the first time ended without
    /// an error.
    pub proof fn lemma_advanced_twice(
        self,
        mid: Progress<E>,
        answer: NbResult<(), E>,
        post: Progress<E>,
    )
        requires
            self.wf(),
            self.advanced(Ok(()), mid),
            mid.advanced(answer, post),
        ensures
            self.advanced(answer, post),
    {
        let a = self.position as int;
        let b = mid.position as int;
        let c = post.position as int;
        assert(post.script.take(a) =~= self.script.take(a)) by {
            assert forall|i: int| 0 <= i < a implies post.script.take(a)[i] == self.script.take(
                a,
            )[i] by {
                assert(post.script.take(b)[i] == mid.script.take(b)[i]);
                assert(mid.script.take(a)[i] == self.script.take(a)[i]);
            }
        }
        assert(mid.script.subrange(a, b) =~= post.script.subrange(a, b)) by {
            assert forall|i: int| 0 <= i < b - a implies mid.script.subrange(a, b)[i]
                == post.script.subrange(a, b)[i] by {
                assert(post.script.take(b)[i + a] == mid.script.take(b)[i + a]);
            }
        }
        assert(post.script.subrange(a, b) + post.script.subrange(b, c) =~= post.script.subrange(
            a,
            c,
        ));
        let tail = match answer {
            Ok(_) => Seq::<Call<E>>::empty(),
            Err(error) => seq![post.script[c].refused(error)],
        };
        assert(self.log + mid.script.subrange(a, b) + Seq::<Call<E>>::empty() + post.script.subrange(
            b,
            c,
        ) + tail =~= self.log + post.script.subrange(a, c) + tail);
    }
}

/// Calls that were all answered well are their own successes.
pub proof fn lemma_successes_all<E>(calls: Seq<Call<E>>)
    requires
        forall|i: int| 0 <= i < calls.len() ==> (#[trigger] calls[i]).succeeded(),
    ensures
        successes(calls) == calls,
    decreases calls.len(),
{
    reveal(Seq::filter);
    if calls.len() > 0 {
        lemma_successes_all(calls.drop_last());
        assert(calls.last() == calls[calls.len() - 1]);
        assert(calls.drop_last().push(calls.last()) =~= calls);
    }
}

/// A refused call adds nothing to the successes.
pub proof fn lemma_successes_refused<E>(log: Seq<Call<E>>, call: Call<E>, error: NbError<E>)
    ensures
        successes(log + seq![call.refused(error)]) == successes(log),
{
    let pred = |call: Call<E>| call.succeeded();
    let one = seq![call.refused(error)];
    Seq::filter_distributes_over_add(log, one, pred);
    assert(one.filter(pred) =~= Seq::<Call<E>>::empty()) by {
        reveal_with_fuel(Seq::filter, 2);
        assert(one.drop_last() =~= Seq::<Call<E>>::empty());
        assert(!pred(one.last()));
    }
    assert(successes(log) + Seq::<Call<E>>::empty() =~= successes(log));
}

/// However often the transport refuses a call in between, the calls that it
/// has answered well between the first poll of an operation and the last are
/// those of the script from the first position to the last, each once and in
/// order: a poll goes on where the one before it stopped. The operation is
/// complete as soon as a poll returns without an error.
pub proof fn lemma_polls_resume<E>(states: Seq<Progress<E>>, answers: Seq<NbResult<(), E>>)
    requires
        states.len() == answers.len() + 1,
        states[0].wf(),
        forall|i: int|
            0 <= i < answers.len() ==> (#[trigger] states[i]).polled(answers[i], states[i + 1]),
    ensures
        states.last().wf(),
        states[0].position <= states.last().position,
        states.last().script.take(states[0].position as int) == states[0].script.take(
            states[0].position as int,
        ),
        successes(states.last().log) == successes(states[0].log) + states.last().script.subrange(
            states[0].position as int,
            states.last().position as int,
        ),
        answers.len() > 0 && answers.last() is Ok ==> successes(states.last().log) == successes(
            states[0].log,
        ) + states.last().script.skip(states[0].position as int),
    decreases answers.len(),
{
    let first = states[0];
    let start = first.position as int;
    if answers.len() == 0 {
        assert(states.last() == first);
        assert(successes(first.log) + first.script.subrange(start, start) =~= successes(
            first.log,
        ));
    } else {
        let n = answers.len() as int;
        let shorter = states.drop_last();
        assert(shorter[0] == first);
        assert forall|i: int| 0 <= i < n - 1 implies (#[trigger] shorter[i]).polled(
            answers.drop_last()[i],
            shorter[i + 1],
        ) by {
            assert(states[i].polled(answers[i], states[i + 1]));
        }
        lemma_polls_resume(shorter, answers.drop_last());
        let pre = states[n - 1];
        let post = states[n];
        let answer = answers[n - 1];
        assert(pre == shorter.last());
        assert(post == states.last());
        assert(pre.polled(answer, post));
        let mid = pre.position as int;
        let end = post.position as int;
        let step = post.script.subrange(mid, end);
        assert(successes(pre.log + step) == successes(pre.log) + step) by {
            Seq::filter_distributes_over_add(pre.log, step, |call: Call<E>| call.succeeded());
            lemma_successes_all(step);
        }
        match answer {
            Ok(_) => {
                assert(pre.log + step + Seq::<Call<E>>::empty() =~= pre.log + step);
                assert(post.script.skip(start) =~= post.script.subrange(start, end));
            },
            Err(error) => {
                lemma_successes_refused(pre.log + step, post.script[end], error);
            },
        }
        assert(post.script.take(start) =~= first.script.take(start)) by {
            assert forall|i: int| 0 <= i < start implies post.script.take(start)[i]
                == first.script.take(start)[i] by {
                assert(post.script.take(mid)[i] == pre.script.take(mid)[i]);
                assert(pre.script.take(start)[i] == first.script.take(start)[i]);
            }
        }
        assert(pre.script.subrange(start, mid) =~= post.script.subrange(start, mid)) by {
            assert forall|i: int| 0 <= i < mid - start implies pre.script.subrange(start, mid)[i]
                == post.script.subrange(start, mid)[i] by {
                assert(post.script.take(mid)[i + start] == pre.script.take(mid)[i + start]);
            }
        }
        assert(successes(first.log) + pre.script.subrange(start, mid) + step =~= successes(
            first.log,
        ) + post.script.subrange(start, end));
    }
}

/// A poll ends early only where the transport refuses a call: the refused
/// call is the last that the poll made. So the first poll during which the
/// transport refuses nothing plays the script to its end.
pub proof fn lemma_poll_ends_at_refusal<E>(
    pre: Progress<E>,
    answer: NbResult<(), E>,
    post: Progress<E>,
)
    requires
        pre.polled(answer, post),
    ensures
        pre.log.len() <= post.log.len(),
        post.log.take(pre.log.len() as int) == pre.log,
        answer is Err ==> post.log.len() > pre.log.len() && !post.log.last().succeeded(),
        (forall|i: int| pre.log.len() <= i < post.log.len() ==> (#[trigger] post.log[i]).succeeded())
            ==> answer is Ok && post.is_complete(),
{
    assert(post.log.take(pre.log.len() as int) =~= pre.log);
    if answer is Err {
        let last = post.log[post.log.len() - 1];
        assert(!last.succeeded());
    }
}

/// Trait for a future or state machine used for non-blocking communication.
///
/// These state machines depend on being actively polled (similar to Rust
/// futures). To cancel progress, just stop polling. However, this might leave
/// you within an undefined state of the UART communication protocol.
///
/// To retrieve the result use `into_return_value`. If called before
/// completing the future this can be used to retrieve owned values when
/// intending to cancel the future.
///
/// * `R`: return value type
/// * `E`: error type
pub trait NbFuture<R, E>: Sized {
    /// What holds of a future between any two calls.
    spec fn wf(&self) -> bool;

    /// How far the future has come.
    spec fn progress(&self) -> Progress<E>;

    /// A future that stands as it should has a position within its script.
    proof fn lemma_progress_wf(&self)
        requires
            self.wf(),
        ensures
            self.progress().wf(),
    ;

    /// Poll the future and advance execution if possible.
    fn poll(&mut self) -> (answer: NbResult<(), E>)
        requires
            old(self).wf(),
        ensures
            final(self).wf(),
            old(self).progress().polled(answer, final(self).progress()),
    ;

    /// Turn the future into the owned variable captured by the future and other
    /// return values.
    fn into_return_value(self) -> R
        requires
            self.wf(),
    ;
}

/// Write all bytes within a buffer.
///
/// * `W`: the transport to write to
/// * `N`: length of the buffer
pub struct WriteAll<W: Transport, const N: usize> {
    uart: Line<W>,
    buf: [u8; N],
    bytes_written: usize,
}

impl<W: Transport, const N: usize> WriteAll<W, N> {
    /// The transport with the record of its calls.
    pub closed spec fn line(&self) -> Line<W> {
        self.uart
    }

    /// The calls made on the transport so far.
    pub open spec fn log(&self) -> Seq<Call<W::Error>> {
        self.line().log()
    }

    /// The bytes to write.
    pub closed spec fn bytes(&self) -> Seq<u8> {
        self.buf@
    }

    /// How many of the bytes the transport has taken.
    pub closed spec fn written(&self) -> nat {
        self.bytes_written as nat
    }

    /// Create future to write all bytes in `buf` to `uart`.
    pub fn new(uart: W, buf: [u8; N]) -> (future: Self)
        ensures
            future.wf(),
            future.bytes() == buf@,
            future.written() == 0,
            future.log() == Seq::<Call<W::Error>>::empty(),
            future.line().transport() == uart,
    {
        Self::over(Line::new(uart), buf)
    }

    /// Create future to write all bytes in `buf` to a transport whose calls
    /// are being recorded.
    pub fn over(uart: Line<W>, buf: [u8; N]) -> (future: Self)
        ensures
            future.wf(),
            future.bytes() == buf@,
            future.written() == 0,
            future.line() == uart,
    {
        Self { uart, buf, bytes_written: 0 }
    }

    /// Gives up the future for the transport and the record of its calls.
    pub fn into_line(self) -> (uart: Line<W>)
        ensures
            uart == self.line(),
    {
        self.uart
    }
}

impl<W: Transport, const N: usize> NbFuture<W, W::Error> for WriteAll<W, N> {
    /// The cursor lies within the buffer.
    open spec fn wf(&self) -> bool {
        self.written() <= self.bytes().len()
    }

    /// The script writes the bytes of the buffer in order; the position is
    /// the number of bytes taken.
    open spec fn progress(&self) -> Progress<W::Error> {
        Progress { log: self.log(), script: writes_taken(self.bytes()), position: self.written() }
    }

    proof fn lemma_progress_wf(&self) {
    }

    /// Poll the future: write until the transport does not take a byte or all
    /// bytes are written.
    fn poll(&mut self) -> (answer: NbResult<(), W::Error>)
        ensures
            final(self).bytes() == old(self).bytes(),
    {
        let ghost script = writes_taken::<W::Error>(self.bytes());
        let ghost start = self.written() as int;
        loop
            invariant
                self.bytes() == old(self).bytes(),
                script == writes_taken::<W::Error>(self.bytes()),
                start == old(self).written(),
                start <= self.written() <= N,
                self.bytes().len() == N,
                self.log() == old(self).log() + script.subrange(start, self.written() as int),
            decreases N - self.written(),
        {
            if self.bytes_written >= N {
                assert(self.log() =~= old(self).log() + script.subrange(start, N as int)
                    + Seq::<Call<W::Error>>::empty());
                return Ok(());
            }
            let c = self.buf[self.bytes_written];
            let ghost played = script.subrange(start, self.written() as int);
            let answer = self.uart.write(c);
            match answer {
                Ok(()) => {
                    self.bytes_written = self.bytes_written + 1;
                    proof {
                        assert(answer->Ok_0 == ());
                        assert(played.push(Call::Write(c, Ok(()))) =~= script.subrange(
                            start,
                            self.written() as int,
                        ));
                    }
                },
                Err(err) => {
                    proof {
                        assert(self.log() =~= old(self).log() + played + seq![
                            script[self.written() as int].refused(err),
                        ]);
                    }
                    return Err(err);
                },
            }
        }
    }

    /// Turn the future into the transport it wrote to.
    fn into_return_value(self) -> (uart: W)
        ensures
            uart == self.line().transport(),
    {
        self.uart.into_inner()
    }
}

/// Read multiple bytes.
///
/// * `R`: the transport to read from
/// * `N`: length of the buffer to read into
pub struct ReadMultiple<R: Transport, const N: usize> {
    uart: Line<R>,
    buf: [u8; N],
    bytes_read: usize,
    read_len: usize,
}

impl<R: Transport, const N: usize> ReadMultiple<R, N> {
    /// The transport with the record of its calls.
    pub closed spec fn line(&self) -> Line<R> {
        self.uart
    }

    /// The calls made on the transport so far.
    pub open spec fn log(&self) -> Seq<Call<R::Error>> {
        self.line().log()
    }

    /// The buffer; the bytes read so far stand at its front.
    pub closed spec fn buffer(&self) -> Seq<u8> {
        self.buf@
    }

    /// How many bytes have been read.
    pub closed spec fn read(&self) -> nat {
        self.bytes_read as nat
    }

    /// How many bytes are to be read in all.
    pub closed spec fn target(&self) -> nat {
        self.read_len as nat
    }

    /// Create future to read `read_len` bytes from `uart` into the front of
    /// `buf`.
    pub fn new(uart: R, buf: [u8; N], read_len: usize) -> (future: Self)
        requires
            read_len <= N,
        ensures
            future.wf(),
            future.buffer() == buf@,
            future.read() == 0,
            future.target() == read_len,
            future.log() == Seq::<Call<R::Error>>::empty(),
            future.line().transport() == uart,
    {
        Self::over(Line::new(uart), buf, read_len)
    }

    /// Create future to read `read_len` bytes from a transport whose calls
    /// are being recorded.
    pub fn over(uart: Line<R>, buf: [u8; N], read_len: usize) -> (future: Self)
        requires
            read_len <= N,
        ensures
            future.wf(),
            future.buffer() == buf@,
            future.read() == 0,
            future.target() == read_len,
            future.line() == uart,
    {
        Self { uart, buf, bytes_read: 0, read_len }
    }

    /// Gives up the future for the transport with the record of its calls,
    /// and the buffer.
    pub fn into_parts(self) -> (parts: (Line<R>, [u8; N]))
        ensures
            parts.0 == self.line(),
            parts.1@ == self.buffer(),
    {
        (self.uart, self.buf)
    }
}

impl<R: Transport, const N: usize> NbFuture<(R, [u8; N]), R::Error> for ReadMultiple<R, N> {
    /// The cursor lies within the part of the buffer that is to be filled.
    open spec fn wf(&self) -> bool {
        self.read() <= self.target() <= self.buffer().len()
    }

    /// The script reads as many bytes as were asked for, those that stand at
    /// the front of the buffer; the position is the number of bytes read.
    open spec fn progress(&self) -> Progress<R::Error> {
        Progress {
            log: self.log(),
            script: reads_given(self.buffer().take(self.target() as int)),
            position: self.read(),
        }
    }

    proof fn lemma_progress_wf(&self) {
    }

    /// Poll the future: read until the transport gives no byte or all bytes
    /// are read.
    fn poll(&mut self) -> (answer: NbResult<(), R::Error>)
        ensures
            final(self).target() == old(self).target(),
            final(self).buffer().len() == old(self).buffer().len(),
            forall|i: int|
                0 <= i < old(self).buffer().len() && !(old(self).read() <= i < final(self).read())
                    ==> final(self).buffer()[i] == old(self).buffer()[i],
    {
        let ghost start = self.read() as int;
        loop
            invariant
                self.wf(),
                self.target() == old(self).target(),
                self.buffer().len() == N,
                old(self).buffer().len() == N,
                start == old(self).read(),
                start <= self.read(),
                forall|i: int|
                    0 <= i < N && !(start <= i < self.read()) ==> self.buffer()[i] == old(
                        self,
                    ).buffer()[i],
                self.log() == old(self).log() + reads_given::<R::Error>(
                    self.buffer().subrange(start, self.read() as int),
                ),
            decreases self.target() - self.read(),
        {
            let ghost given = reads_given::<R::Error>(
                self.buffer().subrange(start, self.read() as int),
            );
            if self.bytes_read >= self.read_len {
                proof {
                    let script = self.progress().script;
                    assert(given =~= script.subrange(start, self.read() as int));
                    assert(self.log() =~= old(self).log() + given + Seq::<Call<R::Error>>::empty());
                    assert(script.take(start) =~= old(self).progress().script.take(start));
                }
                return Ok(());
            }
            match self.uart.read() {
                Ok(c) => {
                    self.buf[self.bytes_read] = c;
                    self.bytes_read = self.bytes_read + 1;
                    proof {
                        assert(given.push(Call::Read(Ok(c))) =~= reads_given::<R::Error>(
                            self.buffer().subrange(start, self.read() as int),
                        ));
                    }
                },
                Err(err) => {
                    proof {
                        let script = self.progress().script;
                        assert(given =~= script.subrange(start, self.read() as int));
                        assert(self.log() =~= old(self).log() + given + seq![
                            script[self.read() as int].refused(err),
                        ]);
                        assert(script.take(start) =~= old(self).progress().script.take(start));
                    }
                    return Err(err);
                },
            }
        }
    }

    /// Turn the future into the transport it read from and the buffer.
    fn into_return_value(self) -> (ret: (R, [u8; N]))
        ensures
            ret.0 == self.line().transport(),
            ret.1@ == self.buffer(),
    {
        (self.uart.into_inner(), self.buf)
    }
}

/// The calls of a whole exchange: the request is written byte by byte, the
/// transport is flushed, and the response is read byte by byte.
pub open spec fn exchange_script<E>(request: Seq<u8>, response: Seq<u8>) -> Seq<Call<E>> {
    writes_taken(request) + seq![Call::Flush(Ok(()))] + reads_given(response)
}

/// Where the calls of an exchange stand in its script.
pub proof fn lemma_exchange_script<E>(request: Seq<u8>, response: Seq<u8>)
    ensures
        exchange_script::<E>(request, response).len() == request.len() + 1 + response.len(),
        exchange_script::<E>(request, response).take(request.len() as int) == writes_taken::<E>(
            request,
        ),
        exchange_script::<E>(request, response)[request.len() as int] == Call::<E>::Flush(Ok(())),
        exchange_script::<E>(request, response).skip(request.len() as int + 1) == reads_given::<E>(
            response,
        ),
        forall|i: int|
            0 <= i < request.len() + 1 + response.len() ==> (#[trigger] exchange_script::<E>(
                request,
                response,
            )[i]).succeeded(),
{
    let script = exchange_script::<E>(request, response);
    assert(script.take(request.len() as int) =~= writes_taken::<E>(request));
    assert(script.skip(request.len() as int + 1) =~= reads_given::<E>(response));
}

/// The stage that an exchange is in.
enum WriteAndReadResponseState<U: Transport, const W: usize, const R: usize> {
    Write { future: WriteAll<U, W>, read_buf: [u8; R], response_len: usize },
    Flush { uart: Line<U>, read_buf: [u8; R], response_len: usize, request: Ghost<Seq<u8>> },
    Read { future: ReadMultiple<U, R>, request: Ghost<Seq<u8>> },
    Completed {
        uart: Line<U>,
        read_buf: [u8; R],
        response_len: Ghost<nat>,
        request: Ghost<Seq<u8>>,
    },
}

impl<U: Transport, const W: usize, const R: usize> WriteAndReadResponseState<U, W, R> {
    /// The future of the stage stands as it should, and the response fits
    /// into the buffer.
    spec fn wf(&self) -> bool {
        match self {
            Self::Write { future, read_buf, response_len } => future.wf() && *response_len <= R,
            Self::Flush { uart, read_buf, response_len, request } => *response_len <= R
                && request@.len() == W,
            Self::Read { future, request } => future.wf() && request@.len() == W,
            Self::Completed { uart, read_buf, response_len, request } => response_len@ <= R
                && request@.len() == W,
        }
    }

    /// The transport with the record of its calls.
    spec fn line(&self) -> Line<U> {
        match self {
            Self::Write { future, read_buf, response_len } => future.line(),
            Self::Flush { uart, read_buf, response_len, request } => *uart,
            Self::Read { future, request } => future.line(),
            Self::Completed { uart, read_buf, response_len, request } => *uart,
        }
    }

    /// The calls made on the transport so far.
    spec fn log(&self) -> Seq<Call<U::Error>> {
        self.line().log()
    }

    /// The bytes to write.
    spec fn request(&self) -> Seq<u8> {
        match self {
            Self::Write { future, read_buf, response_len } => future.bytes(),
            Self::Flush { uart, read_buf, response_len, request } => request@,
            Self::Read { future, request } => request@,
            Self::Completed { uart, read_buf, response_len, request } => request@,
        }
    }

    /// The buffer that the response is read into.
    spec fn buffer(&self) -> Seq<u8> {
        match self {
            Self::Write { future, read_buf, response_len } => read_buf@,
            Self::Flush { uart, read_buf, response_len, request } => read_buf@,
            Self::Read { future, request } => future.buffer(),
            Self::Completed { uart, read_buf, response_len, request } => read_buf@,
        }
    }

    /// How many bytes the response has.
    spec fn target(&self) -> nat {
        match self {
            Self::Write { future, read_buf, response_len } => *response_len as nat,
            Self::Flush { uart, read_buf, response_len, request } => *response_len as nat,
            Self::Read { future, request } => future.target(),
            Self::Completed { uart, read_buf, response_len, request } => response_len@,
        }
    }

    /// The number of the stage, counted from zero.
    spec fn stage(&self) -> nat {
        match self {
            Self::Write { .. } => 0,
            Self::Flush { .. } => 1,
            Self::Read { .. } => 2,
            Self::Completed { .. } => 3,
        }
    }

    /// How many calls of the exchange the transport has answered well: the
    /// writes, then the flush, then the reads.
    spec fn position(&self) -> nat {
        match self {
            Self::Write { future, read_buf, response_len } => future.written(),
            Self::Flush { uart, read_buf, response_len, request } => request@.len(),
            Self::Read { future, request } => request@.len() + 1 + future.read(),
            Self::Completed { uart, read_buf, response_len, request } => request@.len() + 1
                + response_len@,
        }
    }

    /// How far the exchange has come.
    spec fn progress(&self) -> Progress<U::Error> {
        Progress {
            log: self.log(),
            script: exchange_script(self.request(), self.buffer().take(self.target() as int)),
            position: self.position(),
        }
    }

    /// One stage passed, or none where a call was refused: the stage at hand
    /// is played as far as the transport lets it, and left behind when it is
    /// played out.
    spec fn moved(pre: Self, answer: NbResult<(), U::Error>, post: Self) -> bool {
        &&& post.wf()
        &&& post.request() == pre.request()
        &&& post.target() == pre.target()
        &&& post.buffer().len() == pre.buffer().len()
        &&& forall|i: int|
            0 <= i < pre.buffer().len() && !(pre.position() <= i + pre.request().len() + 1
                < post.position()) ==> post.buffer()[i] == pre.buffer()[i]
        &&& pre.progress().advanced(answer, post.progress())
        &&& match answer {
            Ok(_) => post.stage() == if pre.stage() < 3 {
                pre.stage() + 1
            } else {
                3
            },
            Err(_) => post.stage() == pre.stage(),
        }
    }

    /// Plays the stage at hand as far as the transport lets it, and gives the
    /// next stage if it was played out, or the same stage with the error
    /// that the transport gave.
    fn advance(self) -> (moved: Result<Self, (Self, NbError<U::Error>)>)
        requires
            self.wf(),
        ensures
            match moved {
                Ok(next) => Self::moved(self, Ok(()), next),
                Err((next, error)) => Self::moved(self, Err(error), next),
            },
    {
        proof {
            lemma_exchange_script::<U::Error>(
                self.request(),
                self.buffer().take(self.target() as int),
            );
        }
        let ghost script = self.progress().script;
        let ghost log = self.log();
        let ghost at = self.position() as int;
        match self {
            Self::Write { mut future, read_buf, response_len } => {
                let ghost before = future.progress();
                match future.poll() {
                    Ok(()) => {
                        let ghost request = future.bytes();
                        let uart = future.into_line();
                        proof {
                            assert(before.script.subrange(at, W as int) =~= script.subrange(
                                at,
                                W as int,
                            ));
                            assert(uart.log() =~= log + script.subrange(at, W as int)
                                + Seq::<Call<U::Error>>::empty());
                        }
                        Ok(Self::Flush { uart, read_buf, response_len, request: Ghost(request) })
                    },
                    Err(err) => {
                        proof {
                            let to = future.written() as int;
                            assert(before.script.subrange(at, to) =~= script.subrange(at, to));
                            assert(future.log() =~= log + script.subrange(at, to) + seq![
                                script[to].refused(err),
                            ]);
                        }
                        Err((Self::Write { future, read_buf, response_len }, err))
                    },
                }
            },
            Self::Flush { mut uart, read_buf, response_len, request } => {
                let answer = uart.flush();
                match answer {
                    Ok(()) => {
                        proof {
                            assert(answer->Ok_0 == ());
                            assert(uart.log() =~= log + script.subrange(at, at + 1)
                                + Seq::<Call<U::Error>>::empty());
                        }
                        Ok(
                            Self::Read {
                                future: ReadMultiple::over(uart, read_buf, response_len),
                                request,
                            },
                        )
                    },
                    Err(err) => {
                        proof {
                            assert(uart.log() =~= log + script.subrange(at, at) + seq![
                                script[at].refused(err),
                            ]);
                        }
                        Err((Self::Flush { uart, read_buf, response_len, request }, err))
                    },
                }
            },
            Self::Read { mut future, request } => {
                let ghost before = future.progress();
                let ghost first = request@.len() + 1;
                match future.poll() {
                    Ok(()) => {
                        let ghost target = future.target();
                        let ghost after = future.progress();
                        let (uart, read_buf) = future.into_parts();
                        let next = Self::Completed {
                            uart,
                            read_buf,
                            response_len: Ghost(target),
                            request,
                        };
                        proof {
                            let to = next.position() as int;
                            let played = next.progress().script;
                            lemma_exchange_script::<U::Error>(
                                next.request(),
                                next.buffer().take(next.target() as int),
                            );
                            assert(after.script.subrange(at - first, to - first)
                                =~= played.subrange(at, to));
                            assert(next.log() =~= log + played.subrange(at, to)
                                + Seq::<Call<U::Error>>::empty());
                            assert(played.take(at) =~= script.take(at));
                        }
                        Ok(next)
                    },
                    Err(err) => {
                        let next = Self::Read { future, request };
                        proof {
                            let to = next.position() as int;
                            let played = next.progress().script;
                            lemma_exchange_script::<U::Error>(
                                next.request(),
                                next.buffer().take(next.target() as int),
                            );
                            let after = future.progress();
                            assert(after.script.subrange(at - first, to - first)
                                =~= played.subrange(at, to));
                            assert(next.log() =~= log + played.subrange(at, to) + seq![
                                played[to].refused(err),
                            ]);
                            assert(played.take(at) =~= script.take(at));
                        }
                        Err((next, err))
                    },
                }
            },
            other => {
                proof {
                    assert(other.log() =~= log + script.subrange(at, at)
                        + Seq::<Call<U::Error>>::empty());
                }
                Ok(other)
            },
        }
    }

    /// Whether the response has been read to its end.
    fn is_completed(&self) -> (completed: bool)
        ensures
            completed == (self.stage() == 3),
    {
        match self {
            Self::Completed { .. } => true,
            _ => false,
        }
    }

    /// Gives up the exchange for the transport and the buffer.
    fn cancel(self) -> (parts: (Line<U>, [u8; R]))
        ensures
            parts.0 == self.line(),
            parts.1@ == self.buffer(),
    {
        match self {
            Self::Write { future, read_buf, .. } => (future.into_line(), read_buf),
            Self::Flush { uart, read_buf, .. } => (uart, read_buf),
            Self::Read { future, .. } => future.into_parts(),
            Self::Completed { uart, read_buf, .. } => (uart, read_buf),
        }
    }
}

/// Write all bytes within a buffer and read a fixed length response afterwards.
///
/// * `U`: the transport to write to and read from
/// * `W`: length of the buffer to write
/// * `R`: length of the buffer to read into
pub struct WriteAndReadResponse<U: Transport, const W: usize, const R: usize> {
    state: Option<WriteAndReadResponseState<U, W, R>>,
}

impl<U: Transport, const W: usize, const R: usize> WriteAndReadResponse<U, W, R> {
    /// The transport with the record of its calls.
    pub closed spec fn line(&self) -> Line<U> {
        self.state->Some_0.line()
    }

    /// The calls made on the transport so far.
    pub open spec fn log(&self) -> Seq<Call<U::Error>> {
        self.line().log()
    }

    /// The bytes to write.
    pub closed spec fn request(&self) -> Seq<u8> {
        self.state->Some_0.request()
    }

    /// The buffer that the response is read into.
    pub closed spec fn buffer(&self) -> Seq<u8> {
        self.state->Some_0.buffer()
    }

    /// How many bytes the response has.
    pub closed spec fn target(&self) -> nat {
        self.state->Some_0.target()
    }

    /// How many calls of the exchange the transport has answered well.
    pub closed spec fn position(&self) -> nat {
        self.state->Some_0.position()
    }

    /// Whether the response has been read to its end.
    pub closed spec fn is_complete(&self) -> bool {
        self.state->Some_0.stage() == 3
    }

    /// How many bytes of the response have been read.
    pub open spec fn read(&self) -> nat {
        if self.position() <= self.request().len() {
            0
        } else {
            (self.position() - self.request().len() - 1) as nat
        }
    }

    /// A complete exchange has no call left to make.
    pub proof fn lemma_complete(&self)
        requires
            self.wf(),
        ensures
            self.is_complete() ==> self.progress().is_complete(),
            self.is_complete() ==> self.read() == self.target(),
            self.position() <= W + 1 + self.target(),
            self.read() <= self.target(),
            self.request().len() == W,
            self.buffer().len() == R,
            self.target() <= R,
    {
        lemma_exchange_script::<U::Error>(
            self.request(),
            self.buffer().take(self.target() as int),
        );
    }

    /// Create future to write `buf` bytes to `uart` and read `read_len` bytes
    /// afterwards.
    pub fn new(uart: U, write_buf: [u8; W], read_buf: [u8; R], response_len: usize) -> (future:
        Self)
        requires
            response_len <= R,
        ensures
            future.wf(),
            future.request() == write_buf@,
            future.buffer() == read_buf@,
            future.target() == response_len,
            future.position() == 0,
            future.log() == Seq::<Call<U::Error>>::empty(),
            future.line().transport() == uart,
    {
        Self::over(Line::new(uart), write_buf, read_buf, response_len)
    }

    /// Create future to write `buf` bytes to a transport whose calls are being
    /// recorded, and to read `read_len` bytes afterwards.
    pub fn over(uart: Line<U>, write_buf: [u8; W], read_buf: [u8; R], response_len: usize) -> (future:
        Self)
        requires
            response_len <= R,
        ensures
            future.wf(),
            future.request() == write_buf@,
            future.buffer() == read_buf@,
            future.target() == response_len,
            future.position() == 0,
            future.line() == uart,
    {
        Self {
            state: Some(
                WriteAndReadResponseState::Write {
                    future: WriteAll::over(uart, write_buf),
                    read_buf,
                    response_len,
                },
            ),
        }
    }

    /// Gives up the future for the transport with the record of its calls,
    /// and the buffer with what was read of the response.
    pub fn into_parts(self) -> (parts: (Line<U>, [u8; R]))
        requires
            self.wf(),
        ensures
            parts.0 == self.line(),
            parts.1@ == self.buffer(),
    {
        self.state.unwrap().cancel()
    }
}

impl<U: Transport, const W: usize, const R: usize> NbFuture<
    (U, [u8; R]),
    U::Error,
> for WriteAndReadResponse<U, W, R> {
    /// The future holds a stage, and the stage stands as it should.
    closed spec fn wf(&self) -> bool {
        self.state is Some && self.state->Some_0.wf()
    }

    /// The script is that of an exchange of the request for as many bytes as
    /// were asked for, those that stand at the front of the buffer.
    open spec fn progress(&self) -> Progress<U::Error> {
        Progress {
            log: self.log(),
            script: exchange_script(self.request(), self.buffer().take(self.target() as int)),
            position: self.position(),
        }
    }

    proof fn lemma_progress_wf(&self) {
        lemma_exchange_script::<U::Error>(
            self.request(),
            self.buffer().take(self.target() as int),
        );
    }

    /// Poll the future: write the request, flush, and read the response, as
    /// far as the transport lets it.
    fn poll(&mut self) -> (answer: NbResult<(), U::Error>)
        ensures
            final(self).request() == old(self).request(),
            final(self).target() == old(self).target(),
            final(self).buffer().len() == old(self).buffer().len(),
            forall|i: int|
                0 <= i < old(self).buffer().len() && !(old(self).read() <= i < final(self).read())
                    ==> final(self).buffer()[i] == old(self).buffer()[i],
            answer is Ok <==> final(self).is_complete(),
    {
        proof {
            self.lemma_progress_wf();
            assert(self.log() =~= self.log() + self.progress().script.subrange(
                self.position() as int,
                self.position() as int,
            ) + Seq::<Call<U::Error>>::empty());
        }
        loop
            invariant
                self.wf(),
                old(self).wf(),
                old(self).progress().wf(),
                self.request() == old(self).request(),
                self.target() == old(self).target(),
                self.buffer().len() == old(self).buffer().len(),
                forall|i: int|
                    0 <= i < old(self).buffer().len() && !(old(self).read() <= i < self.read())
                        ==> self.buffer()[i] == old(self).buffer()[i],
                old(self).position() <= self.position(),
                old(self).progress().advanced(Ok(()), self.progress()),
            decreases 3 - self.state->Some_0.stage(),
        {
            let ghost mid = self.progress();
            let ghost before = self.state->Some_0;
            let (result, new_state) = match self.state.take().unwrap().advance() {
                Ok(new_state) => (Ok(()), new_state),
                Err((new_state, err)) => (Err(err), new_state),
            };
            let completed = new_state.is_completed();
            self.state = Some(new_state);
            proof {
                if result is Ok {
                    assert(result->Ok_0 == ());
                }
                assert(WriteAndReadResponseState::moved(before, result, new_state));
                old(self).progress().lemma_advanced_twice(mid, result, self.progress());
                self.lemma_complete();
            }
            if completed {
                return Ok(());
            }
            if let Err(err) = result {
                return Err(err);
            }
        }
    }

    /// Turn the future into the transport and the buffer with what was read
    /// of the response.
    fn into_return_value(self) -> (ret: (U, [u8; R]))
        ensures
            ret.0 == self.line().transport(),
            ret.1@ == self.buffer(),
    {
        let (uart, read_buf) = self.state.unwrap().cancel();
        (uart.into_inner(), read_buf)
    }
}

} // verus!
