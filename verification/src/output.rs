//! Output sinks and the multiplexed fan-out over them.
//!
//! A `Sink` is one destination for captured bytes. The console sinks hand
//! their bytes to the process's standard streams through trusted calls and
//! keep a ghost record of what was accepted; the `Writer` sink stores its
//! bytes in memory; the `Null` sink accepts and discards. A
//! `MultiplexedOutput` forwards each write to every sink in registration
//! order and stops at the first failure.

use vstd::prelude::*;
use std::io::Write;

verus! {

/// Error from a sink: a write or a flush did not complete.
#[derive(Clone, Copy, PartialEq, Eq, Structural, Debug)]
pub enum OutputError {
    WriteFailed,
    FlushFailed,
}

/// Relies on std::io::Stdout::write_all: nothing is assumed of the outcome.
#[verifier::external_body]
fn console_out_write(buf: &Vec<u8>) -> (r: Result<(), OutputError>) {
    match std::io::stdout().write_all(buf.as_slice()) {
        Ok(()) => Ok(()),
        Err(_) => Err(OutputError::WriteFailed),
    }
}

/// Relies on std::io::Stdout::flush: nothing is assumed of the outcome.
#[verifier::external_body]
fn console_out_flush() -> (r: Result<(), OutputError>) {
    match std::io::stdout().flush() {
        Ok(()) => Ok(()),
        Err(_) => Err(OutputError::FlushFailed),
    }
}

/// Relies on std::io::Stderr::write_all: nothing is assumed of the outcome.
#[verifier::external_body]
fn console_err_write(buf: &Vec<u8>) -> (r: Result<(), OutputError>) {
    match std::io::stderr().write_all(buf.as_slice()) {
        Ok(()) => Ok(()),
        Err(_) => Err(OutputError::WriteFailed),
    }
}

/// Relies on std::io::Stderr::flush: nothing is assumed of the outcome.
#[verifier::external_body]
fn console_err_flush() -> (r: Result<(), OutputError>) {
    match std::io::stderr().flush() {
        Ok(()) => Ok(()),
        Err(_) => Err(OutputError::FlushFailed),
    }
}

/// Sink for the process's standard output. Keeps a ghost record of every
/// byte the console accepted.
pub struct Stdout {
    accepted: Ghost<Seq<u8>>,
}

/// Sink for the process's standard error. Keeps a ghost record of every
/// byte the console accepted.
pub struct Stderr {
    accepted: Ghost<Seq<u8>>,
}

/// In-memory sink: a caller-owned byte buffer that every accepted write
/// is appended to.
pub struct Writer {
    data: Vec<u8>,
}

/// Sink that accepts every write and discards the bytes. Keeps a ghost
/// record of what it accepted.
pub struct Null {
    accepted: Ghost<Seq<u8>>,
}

impl Stdout {
    pub closed spec fn accepted(&self) -> Seq<u8> {
        self.accepted@
    }

    pub fn new() -> (r: Self)
        ensures
            r.accepted() == Seq::<u8>::empty(),
    {
        Stdout { accepted: Ghost(Seq::empty()) }
    }

    pub fn write(&mut self, buf: &Vec<u8>) -> (r: Result<(), OutputError>)
        ensures
            r is Ok ==> final(self).accepted() == old(self).accepted() + buf@,
            r is Err ==> final(self).accepted() == old(self).accepted(),
    {
        match console_out_write(buf) {
            Ok(()) => {
                self.accepted = Ghost(self.accepted@ + buf@);
                Ok(())
            }
            Err(e) => Err(e),
        }
    }

    pub fn flush(&mut self) -> (r: Result<(), OutputError>)
        ensures
            final(self).accepted() == old(self).accepted(),
    {
        console_out_flush()
    }
}

impl Stderr {
    pub closed spec fn accepted(&self) -> Seq<u8> {
        self.accepted@
    }

    pub fn new() -> (r: Self)
        ensures
            r.accepted() == Seq::<u8>::empty(),
    {
        Stderr { accepted: Ghost(Seq::empty()) }
    }

    pub fn write(&mut self, buf: &Vec<u8>) -> (r: Result<(), OutputError>)
        ensures
            r is Ok ==> final(self).accepted() == old(self).accepted() + buf@,
            r is Err ==> final(self).accepted() == old(self).accepted(),
    {
        match console_err_write(buf) {
            Ok(()) => {
                self.accepted = Ghost(self.accepted@ + buf@);
                Ok(())
            }
            Err(e) => Err(e),
        }
    }

    pub fn flush(&mut self) -> (r: Result<(), OutputError>)
        ensures
            final(self).accepted() == old(self).accepted(),
    {
        console_err_flush()
    }
}

impl Writer {
    pub closed spec fn accepted(&self) -> Seq<u8> {
        self.data@
    }

    pub fn new() -> (r: Self)
        ensures
            r.accepted() == Seq::<u8>::empty(),
    {
        Writer { data: Vec::new() }
    }

    /// The bytes this sink has accepted, in order.
    pub fn buffered(&self) -> (r: &Vec<u8>)
        ensures
            r@ == self.accepted(),
    {
        &self.data
    }

    pub fn write(&mut self, buf: &Vec<u8>) -> (r: Result<(), OutputError>)
        ensures
            r is Ok,
            final(self).accepted() == old(self).accepted() + buf@,
    {
        let mut i: usize = 0;
        while i < buf.len()
            invariant
                i <= buf@.len(),
                self.data@ == old(self).data@ + buf@.subrange(0, i as int),
            decreases buf@.len() - i,
        {
            self.data.push(buf[i]);
            i = i + 1;
        }
        proof {
            assert(buf@.subrange(0, buf@.len() as int) == buf@);
        }
        Ok(())
    }

    pub fn flush(&mut self) -> (r: Result<(), OutputError>)
        ensures
            r is Ok,
            final(self).accepted() == old(self).accepted(),
    {
        Ok(())
    }
}

impl Null {
    pub closed spec fn accepted(&self) -> Seq<u8> {
        self.accepted@
    }

    pub fn new() -> (r: Self)
        ensures
            r.accepted() == Seq::<u8>::empty(),
    {
        Null { accepted: Ghost(Seq::empty()) }
    }

    pub fn write(&mut self, buf: &Vec<u8>) -> (r: Result<(), OutputError>)
        ensures
            r is Ok,
            final(self).accepted() == old(self).accepted() + buf@,
    {
        self.accepted = Ghost(self.accepted@ + buf@);
        Ok(())
    }

    pub fn flush(&mut self) -> (r: Result<(), OutputError>)
        ensures
            r is Ok,
            final(self).accepted() == old(self).accepted(),
    {
        Ok(())
    }
}

/// One output destination, dispatched by kind.
pub enum Output {
    Stdout(Stdout),
    Stderr(Stderr),
    Writer(Writer),
    Null(Null),
}

impl Output {
    /// The bytes this sink has accepted so far, in order.
    pub open spec fn accepted(&self) -> Seq<u8> {
        match self {
            Output::Stdout(s) => s.accepted(),
            Output::Stderr(s) => s.accepted(),
            Output::Writer(w) => w.accepted(),
            Output::Null(n) => n.accepted(),
        }
    }

    /// Whether every write and flush on this sink succeeds: true for the
    /// in-memory and discard sinks, whose operations cannot fail.
    pub open spec fn always_accepts(&self) -> bool {
        match self {
            Output::Stdout(_) => false,
            Output::Stderr(_) => false,
            Output::Writer(_) => true,
            Output::Null(_) => true,
        }
    }

    pub fn new_stdout() -> (r: Self)
        ensures
            r is Stdout,
            r.accepted() == Seq::<u8>::empty(),
    {
        Output::Stdout(Stdout::new())
    }

    pub fn new_stderr() -> (r: Self)
        ensures
            r is Stderr,
            r.accepted() == Seq::<u8>::empty(),
    {
        Output::Stderr(Stderr::new())
    }

    pub fn new_writer() -> (r: Self)
        ensures
            r is Writer,
            r.accepted() == Seq::<u8>::empty(),
    {
        Output::Writer(Writer::new())
    }

    pub fn new_null() -> (r: Self)
        ensures
            r is Null,
            r.accepted() == Seq::<u8>::empty(),
    {
        Output::Null(Null::new())
    }

    /// For an in-memory sink, the bytes it holds; `None` for the others.
    pub fn buffered(&self) -> (r: Option<&Vec<u8>>)
        ensures
            self is Writer ==> r is Some && r.unwrap()@ == self.accepted(),
            !(self is Writer) ==> r is None,
    {
        match self {
            Output::Writer(w) => Some(w.buffered()),
            _ => None,
        }
    }

    /// Forwards the whole buffer to the destination. On success the sink
    /// has accepted exactly the old bytes followed by `buf`; on failure it
    /// is unchanged. The in-memory and discard sinks never fail.
    pub fn write(&mut self, buf: &Vec<u8>) -> (r: Result<(), OutputError>)
        ensures
            r is Ok ==> final(self).accepted() == old(self).accepted() + buf@,
            r is Err ==> final(self).accepted() == old(self).accepted(),
            old(self).always_accepts() ==> r is Ok,
            final(self).always_accepts() == old(self).always_accepts(),
    {
        match self {
            Output::Stdout(s) => s.write(buf),
            Output::Stderr(s) => s.write(buf),
            Output::Writer(w) => w.write(buf),
            Output::Null(n) => n.write(buf),
        }
    }

    /// Flushes the destination; the accepted bytes are unchanged either way.
    pub fn flush(&mut self) -> (r: Result<(), OutputError>)
        ensures
            final(self).accepted() == old(self).accepted(),
            old(self).always_accepts() ==> r is Ok,
            final(self).always_accepts() == old(self).always_accepts(),
    {
        match self {
            Output::Stdout(s) => s.flush(),
            Output::Stderr(s) => s.flush(),
            Output::Writer(w) => w.flush(),
            Output::Null(n) => n.flush(),
        }
    }
}

/// An ordered collection of sinks; every write and flush is forwarded to
/// each sink in registration order, stopping at the first failure.
pub struct MultiplexedOutput {
    outputs: Vec<Output>,
}

impl MultiplexedOutput {
    /// The registered sinks, in registration order.
    pub closed spec fn sinks(&self) -> Seq<Output> {
        self.outputs@
    }

    /// True when no registered sink can fail.
    pub open spec fn all_accept(&self) -> bool {
        forall|i: int| 0 <= i < self.sinks().len() ==> self.sinks()[i].always_accepts()
    }

    pub fn new() -> (r: Self)
        ensures
            r.sinks().len() == 0,
    {
        MultiplexedOutput { outputs: Vec::new() }
    }

    pub fn add(&mut self, output: Output)
        ensures
            final(self).sinks() == old(self).sinks().push(output),
    {
        self.outputs.push(output);
    }

    pub fn len(&self) -> (n: usize)
        ensures
            n == self.sinks().len(),
    {
        self.outputs.len()
    }

    /// For the in-memory sink at position `i`, the bytes it holds.
    pub fn sink_buffered(&self, i: usize) -> (r: Option<&Vec<u8>>)
        requires
            i < self.sinks().len(),
        ensures
            self.sinks()[i as int] is Writer ==> r is Some && r.unwrap()@
                == self.sinks()[i as int].accepted(),
            !(self.sinks()[i as int] is Writer) ==> r is None,
    {
        self.outputs[i].buffered()
    }

    /// Fan-out: forwards the entire buffer to every sink in registration
    /// order. On success every sink accepted exactly `buf` once; on failure
    /// every sink before the first failing one accepted exactly `buf` once
    /// and the failing sink and those after it are unchanged.
    pub fn write(&mut self, buf: &Vec<u8>) -> (r: Result<(), OutputError>)
        ensures
            final(self).sinks().len() == old(self).sinks().len(),
            forall|i: int|
                0 <= i < old(self).sinks().len() ==> final(self).sinks()[i].always_accepts()
                    == old(self).sinks()[i].always_accepts(),
            r is Ok ==> forall|i: int|
                0 <= i < old(self).sinks().len() ==> final(self).sinks()[i].accepted() == old(
                    self,
                ).sinks()[i].accepted() + buf@,
            r is Err ==> exists|k: int|
                0 <= k < old(self).sinks().len() && !old(self).sinks()[k].always_accepts() && (
                forall|i: int|
                    0 <= i < k ==> final(self).sinks()[i].accepted() == old(self).sinks()[
                        i
                    ].accepted() + buf@) && (forall|i: int|
                    k <= i < old(self).sinks().len() ==> final(self).sinks()[i].accepted() == old(
                        self,
                    ).sinks()[i].accepted()),
            old(self).all_accept() ==> r is Ok,
    {
        let n = self.outputs.len();
        let mut j: usize = 0;
        while j < n
            invariant
                n == old(self).sinks().len(),
                j <= n,
                self.sinks().len() == n,
                forall|i: int|
                    0 <= i < n ==> self.sinks()[i].always_accepts() == old(self).sinks()[
                        i
                    ].always_accepts(),
                forall|i: int|
                    0 <= i < j ==> self.sinks()[i].accepted() == old(self).sinks()[i].accepted()
                        + buf@,
                forall|i: int| j <= i < n ==> self.sinks()[i] == old(self).sinks()[i],
            decreases n - j,
        {
            let res = self.outputs[j].write(buf);
            if let Err(e) = res {
                return Err(e);
            }
            j = j + 1;
        }
        Ok(())
    }

    /// Forwards a flush to every sink in registration order, stopping at the
    /// first failure; the accepted bytes are unchanged either way.
    pub fn flush(&mut self) -> (r: Result<(), OutputError>)
        ensures
            final(self).sinks().len() == old(self).sinks().len(),
            forall|i: int|
                0 <= i < old(self).sinks().len() ==> final(self).sinks()[i].always_accepts()
                    == old(self).sinks()[i].always_accepts(),
            forall|i: int|
                0 <= i < old(self).sinks().len() ==> final(self).sinks()[i].accepted() == old(
                    self,
                ).sinks()[i].accepted(),
            old(self).all_accept() ==> r is Ok,
    {
        let n = self.outputs.len();
        let mut j: usize = 0;
        while j < n
            invariant
                n == old(self).sinks().len(),
                j <= n,
                self.sinks().len() == n,
                forall|i: int|
                    0 <= i < n ==> self.sinks()[i].always_accepts() == old(self).sinks()[
                        i
                    ].always_accepts(),
                forall|i: int|
                    0 <= i < n ==> self.sinks()[i].accepted() == old(self).sinks()[i].accepted(),
                forall|i: int| j <= i < n ==> self.sinks()[i] == old(self).sinks()[i],
            decreases n - j,
        {
            let res = self.outputs[j].flush();
            if let Err(e) = res {
                return Err(e);
            }
            j = j + 1;
        }
        Ok(())
    }
}

} // verus!
