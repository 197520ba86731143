use vstd::prelude::*;

verus! {

/// A failure of the output sink (for a streaming host, typically a client
/// disconnect). The engine treats it like any other unrecovered error.
#[derive(Debug, Clone, PartialEq, Eq)]
pub struct SinkFault {
    pub message: String,
}

/// The capability the engine produces to: ordered byte chunks with an
/// explicit flush, no random access, no rewind. Its model is the byte
/// sequence delivered so far. A sink whose `infallible()` holds never fails;
/// `MemorySink` is one, and the engine's exact contracts are stated for such
/// sinks.
pub trait OutputSink {
    /// The bytes delivered so far. A sink for which this stays at its
    /// default says nothing of its content; `MemorySink` gives its own.
    open spec fn out(&self) -> Seq<u8> {
        Seq::empty()
    }

    /// Whether this sink never fails. Defaults to `false`: a streaming host
    /// sink can fail at any write.
    open spec fn infallible(&self) -> bool {
        false
    }

    /// Appends `data` to the output.
    fn write_all(&mut self, data: &Vec<u8>) -> (r: Result<(), SinkFault>)
        ensures
            final(self).infallible() == old(self).infallible(),
            r is Ok ==> final(self).out() == old(self).out() + data@,
            r is Err ==> final(self).out() == old(self).out(),
            old(self).infallible() ==> r is Ok,
    ;

    /// Pushes buffered bytes onward; delivers nothing new.
    fn flush(&mut self) -> (r: Result<(), SinkFault>)
        ensures
            final(self).infallible() == old(self).infallible(),
            final(self).out() == old(self).out(),
            old(self).infallible() ==> r is Ok,
    ;
}

/// An in-memory sink collecting the rendered bytes; it never fails.
#[derive(Debug, Clone, PartialEq, Eq)]
pub struct MemorySink {
    pub data: Vec<u8>,
}

impl MemorySink {
    pub fn new() -> (s: MemorySink)
        ensures
            s.out() == Seq::<u8>::empty(),
            s.infallible(),
    {
        let s = MemorySink { data: Vec::new() };
        proof {
            assert(s.data@ =~= Seq::<u8>::empty());
        }
        s
    }

    /// The bytes delivered so far.
    pub fn bytes(&self) -> (r: &Vec<u8>)
        ensures
            r@ == self.out(),
    {
        &self.data
    }
}

impl OutputSink for MemorySink {
    open spec fn out(&self) -> Seq<u8> {
        self.data@
    }

    open spec fn infallible(&self) -> bool {
        true
    }

    fn write_all(&mut self, data: &Vec<u8>) -> (r: Result<(), SinkFault>) {
        let mut i: usize = 0;
        while i < data.len()
            invariant
                i <= data.len(),
                self.data@ =~= old(self).data@ + data@.subrange(0, i as int),
            decreases data.len() - i,
        {
            self.data.push(data[i]);
            i += 1;
        }
        proof {
            assert(self.data@ =~= old(self).data@ + data@);
        }
        Ok(())
    }

    fn flush(&mut self) -> (r: Result<(), SinkFault>) {
        Ok(())
    }
}

} // verus!
