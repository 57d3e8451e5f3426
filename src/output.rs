use vstd::prelude::*;

verus! {

/// What an output stream has seen: every byte the child wrote, how many of
/// them have been handed out, and whether the child closed its output.
pub struct OutputView {
    pub written: Seq<u8>,
    pub consumed: nat,
    pub ended: bool,
}

impl OutputView {
    /// The child writes `chunk`; after the end of output nothing is added.
    pub open spec fn write_spec(self, chunk: Seq<u8>) -> OutputView {
        if self.ended {
            self
        } else {
            OutputView { written: self.written + chunk, ..self }
        }
    }

    /// The child closes its output.
    pub open spec fn end_spec(self) -> OutputView {
        OutputView { ended: true, ..self }
    }

    /// The bytes not yet handed out.
    pub open spec fn pending(self) -> Seq<u8> {
        self.written.subrange(self.consumed as int, self.written.len() as int)
    }

    /// A read hands out every pending byte; the next read goes on from there.
    pub open spec fn read_spec(self) -> (OutputView, Seq<u8>) {
        (OutputView { consumed: self.written.len(), ..self }, self.pending())
    }

    /// The stream has ended and everything has been handed out.
    pub open spec fn finished(self) -> bool {
        self.ended && self.consumed == self.written.len()
    }

    pub open spec fn wf(self) -> bool {
        self.consumed <= self.written.len()
    }

    /// The child writes each of `chunks` in turn.
    pub open spec fn write_all_spec(self, chunks: Seq<Seq<u8>>) -> OutputView
        decreases chunks.len(),
    {
        if chunks.len() == 0 {
            self
        } else {
            self.write_spec(chunks[0]).write_all_spec(chunks.drop_first())
        }
    }
}

/// The output of a child as read from the controller end of its terminal.
pub struct OutputStream {
    data: Vec<u8>,
    pos: usize,
    ended: bool,
}

impl View for OutputStream {
    type V = OutputView;

    closed spec fn view(&self) -> OutputView {
        OutputView { written: self.data@, consumed: self.pos as nat, ended: self.ended }
    }
}

impl OutputStream {
    pub closed spec fn wf(&self) -> bool {
        self.pos <= self.data@.len()
    }

    pub fn new() -> (r: Self)
        ensures
            r.wf(),
            r@.written.len() == 0,
            r@.consumed == 0,
            !r@.ended,
    {
        OutputStream { data: Vec::new(), pos: 0, ended: false }
    }

    /// Takes in bytes that the child wrote.
    pub fn write(&mut self, chunk: &[u8])
        requires
            old(self).wf(),
        ensures
            final(self).wf(),
            final(self)@ == old(self)@.write_spec(chunk@),
    {
        if self.ended {
            return ;
        }
        let ghost start = self.data@;
        let mut i: usize = 0;
        while i < chunk.len()
            invariant
                i <= chunk@.len(),
                self.pos <= start.len(),
                self.pos == old(self).pos,
                start == old(self).data@,
                !self.ended,
                self.data@ == start + chunk@.take(i as int),
            decreases chunk@.len() - i,
        {
            self.data.push(chunk[i]);
            proof {
                assert(chunk@.take(i as int + 1) == chunk@.take(i as int).push(chunk@[i as int]));
                assert(self.data@ =~= start + chunk@.take(i as int + 1));
            }
            i = i + 1;
        }
        assert(chunk@.take(chunk@.len() as int) == chunk@);
        assert(self@.written =~= old(self)@.write_spec(chunk@).written);
    }

    /// The child closed its output.
    pub fn end(&mut self)
        requires
            old(self).wf(),
        ensures
            final(self).wf(),
            final(self)@ == old(self)@.end_spec(),
    {
        self.ended = true;
    }

    /// Hands out the bytes not read so far, in the order they were written.
    pub fn read(&mut self) -> (r: Vec<u8>)
        requires
            old(self).wf(),
        ensures
            final(self).wf(),
            (final(self)@, r@) == old(self)@.read_spec(),
    {
        let ghost start = self@;
        let mut r: Vec<u8> = Vec::new();
        let n = self.data.len();
        let mut i: usize = self.pos;
        while i < n
            invariant
                self@ == start,
                self.wf(),
                n == self.data@.len(),
                self.pos <= i <= n,
                r@ == self.data@.subrange(self.pos as int, i as int),
            decreases n - i,
        {
            r.push(self.data[i]);
            proof {
                assert(r@ =~= self.data@.subrange(self.pos as int, i as int + 1));
            }
            i = i + 1;
        }
        self.pos = n;
        proof {
            assert(self@ =~= start.read_spec().0);
        }
        r
    }

    /// Whether the stream has ended and every byte has been read.
    pub fn is_finished(&self) -> (r: bool)
        requires
            self.wf(),
        ensures
            r == self@.finished(),
    {
        self.ended && self.pos == self.data.len()
    }
}

/// Writing chunks and then reading the stream to its end yields exactly the
/// bytes written, in the order written; a second read yields nothing, and
/// the stream is then finished.
pub proof fn lemma_read_yields_writes_once(v: OutputView, chunks: Seq<Seq<u8>>)
    requires
        v.wf(),
        !v.ended,
        v.consumed == v.written.len(),
    ensures
        v.write_all_spec(chunks).end_spec().read_spec().1 == chunks.flatten(),
        v.write_all_spec(chunks).end_spec().read_spec().0.read_spec().1.len() == 0,
        v.write_all_spec(chunks).end_spec().read_spec().0.finished(),
{
    lemma_write_all(v, chunks);
    assert(v.written + chunks.flatten() == v.write_all_spec(chunks).written);
    assert(v.write_all_spec(chunks).end_spec().read_spec().1 =~= chunks.flatten());
}

proof fn lemma_write_all(v: OutputView, chunks: Seq<Seq<u8>>)
    requires
        v.wf(),
        !v.ended,
    ensures
        v.write_all_spec(chunks).written == v.written + chunks.flatten(),
        v.write_all_spec(chunks).consumed == v.consumed,
        !v.write_all_spec(chunks).ended,
    decreases chunks.len(),
{
    if chunks.len() > 0 {
        let w = v.write_spec(chunks[0]);
        lemma_write_all(w, chunks.drop_first());
        assert(v.written + chunks.flatten() =~= w.written + chunks.drop_first().flatten());
    } else {
        assert(v.written + chunks.flatten() =~= v.written);
    }
}

} // verus!
