//! Capture of one child output stream: the splitting of the raw byte stream
//! into delimiter-stripped lines.
//!
//! Reading the stream and appending to the log file are plain I/O and live in
//! the shell; the shell feeds each chunk it has read through the splitter and
//! writes out the complete lines it gets back, in order.

use vstd::prelude::*;

verus! {

/// A completed line with its delimiter stripped: the trailing carriage return
/// of a `\r\n` ending is dropped along with the newline.
pub open spec fn strip_cr(l: Seq<u8>) -> Seq<u8> {
    if l.len() > 0 && l.last() == 13 {
        l.drop_last()
    } else {
        l
    }
}

/// One byte fed to the splitter: a newline completes the held line, any other
/// byte extends it.
pub open spec fn feed(st: (Seq<Seq<u8>>, Seq<u8>), b: u8) -> (Seq<Seq<u8>>, Seq<u8>) {
    if b == 10 {
        (st.0.push(strip_cr(st.1)), Seq::<u8>::empty())
    } else {
        (st.0, st.1.push(b))
    }
}

/// A whole chunk fed byte by byte, left to right.
pub open spec fn feed_all(st: (Seq<Seq<u8>>, Seq<u8>), s: Seq<u8>) -> (Seq<Seq<u8>>, Seq<u8>)
    decreases s.len(),
{
    if s.len() == 0 {
        st
    } else {
        feed_all(feed(st, s[0]), s.drop_first())
    }
}

proof fn lemma_feed_all_snoc(st: (Seq<Seq<u8>>, Seq<u8>), s: Seq<u8>, b: u8)
    ensures
        feed_all(st, s.push(b)) == feed(feed_all(st, s), b),
    decreases s.len(),
{
    if s.len() == 0 {
        assert(s.push(b).drop_first() =~= Seq::<u8>::empty());
        assert(s.push(b)[0] == b);
        assert(feed_all(feed(st, b), Seq::<u8>::empty()) == feed(st, b));
        assert(feed_all(st, s.push(b)) == feed(st, b));
        assert(feed_all(st, s) == st);
    } else {
        lemma_feed_all_snoc(feed(st, s[0]), s.drop_first(), b);
        assert(s.push(b).drop_first() =~= s.drop_first().push(b));
        assert(s.push(b)[0] == s[0]);
        assert(feed_all(st, s.push(b)) == feed_all(feed(st, s[0]), s.drop_first().push(b)));
        assert(feed_all(st, s.push(b)) == feed(feed_all(feed(st, s[0]), s.drop_first()), b));
        assert(feed_all(st, s) == feed_all(feed(st, s[0]), s.drop_first()));
    }
}

/// Splits one output stream into lines as it arrives, chunk by chunk.
pub struct LineSplitter {
    pub buf: Vec<u8>,
}

impl LineSplitter {
    pub fn new() -> (r: LineSplitter)
        ensures
            r.buf@ == Seq::<u8>::empty(),
    {
        LineSplitter { buf: Vec::new() }
    }

    /// Feed one chunk of the stream; the lines it completes come back in
    /// order, delimiters stripped, and the unterminated tail stays held.
    pub fn push_chunk(&mut self, chunk: &[u8]) -> (lines: Vec<Vec<u8>>)
        ensures
            lines.deep_view() == feed_all(
                (Seq::<Seq<u8>>::empty(), old(self).buf@),
                chunk@,
            ).0,
            final(self).buf@ == feed_all((Seq::<Seq<u8>>::empty(), old(self).buf@), chunk@).1,
    {
        let ghost st0 = (Seq::<Seq<u8>>::empty(), old(self).buf@);
        let mut lines: Vec<Vec<u8>> = Vec::new();
        let mut i: usize = 0;
        while i < chunk.len()
            invariant
                i <= chunk.len(),
                lines.deep_view() == feed_all(st0, chunk@.take(i as int)).0,
                self.buf@ == feed_all(st0, chunk@.take(i as int)).1,
            decreases chunk.len() - i,
        {
            let ghost pre = chunk@.take(i as int);
            let b = chunk[i];
            if b == 10 {
                if self.buf.len() > 0 && self.buf[self.buf.len() - 1] == 13 {
                    self.buf.pop();
                }
                let line = self.buf.split_off(0);
                proof {
                    assert(line@ =~= strip_cr(feed_all(st0, pre).1));
                    assert(self.buf@ =~= Seq::<u8>::empty());
                }
                lines.push(line);
            } else {
                self.buf.push(b);
            }
            i += 1;
            proof {
                lemma_feed_all_snoc(st0, pre, chunk@[i - 1]);
                assert(chunk@.take(i as int) =~= pre.push(chunk@[i - 1]));
                assert(lines.deep_view() =~~= feed_all(st0, chunk@.take(i as int)).0);
            }
        }
        proof {
            assert(chunk@.take(chunk@.len() as int) =~= chunk@);
        }
        lines
    }

    /// The unterminated tail at the close of the stream: the final line when
    /// the stream did not end in a newline, nothing otherwise.
    pub fn finish(&mut self) -> (r: Option<Vec<u8>>)
        ensures
            final(self).buf@ == Seq::<u8>::empty(),
            old(self).buf@.len() == 0 ==> r is None,
            old(self).buf@.len() > 0 ==> (r matches Some(l) && l@ == old(self).buf@),
    {
        if self.buf.len() == 0 {
            None
        } else {
            let tail = self.buf.split_off(0);
            proof {
                assert(tail@ =~= old(self).buf@);
                assert(self.buf@ =~= Seq::<u8>::empty());
            }
            Some(tail)
        }
    }
}

} // verus!
