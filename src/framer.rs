//! Splits a byte stream into newline-terminated lines.

use vstd::prelude::*;

verus! {

/// The byte that ends a line.
pub const NEWLINE: u8 = 10;

/// Number of newline bytes in `s`.
pub open spec fn newline_count(s: Seq<u8>) -> nat
    decreases s.len(),
{
    if s.len() == 0 {
        0
    } else {
        newline_count(s.drop_last()) + if s.last() == NEWLINE { 1nat } else { 0nat }
    }
}

/// Length of the unterminated fragment at the end of `s`: the bytes after
/// its last newline (all of `s` when it holds none).
pub open spec fn fragment_len(s: Seq<u8>) -> nat
    decreases s.len(),
{
    if s.len() == 0 {
        0
    } else if s.last() == NEWLINE {
        0
    } else {
        fragment_len(s.drop_last()) + 1
    }
}

/// The part of `s` made of complete lines: everything up to and including
/// its last newline.
pub open spec fn complete_part(s: Seq<u8>) -> Seq<u8> {
    s.subrange(0, s.len() - fragment_len(s))
}

/// A line: non-empty, ends with a newline, and holds no other newline.
pub open spec fn is_line(l: Seq<u8>) -> bool {
    &&& l.len() > 0
    &&& l.last() == NEWLINE
    &&& forall|j: int| 0 <= j < l.len() - 1 ==> l[j] != NEWLINE
}

/// The lines of `ls` written one after another.
pub open spec fn concat_lines(ls: Seq<Vec<u8>>) -> Seq<u8>
    decreases ls.len(),
{
    if ls.len() == 0 {
        Seq::empty()
    } else {
        concat_lines(ls.drop_last()) + ls.last()@
    }
}

proof fn lemma_fragment_len_bound(s: Seq<u8>)
    ensures
        fragment_len(s) <= s.len(),
    decreases s.len(),
{
    if s.len() > 0 {
        lemma_fragment_len_bound(s.drop_last());
    }
}

/// Accumulates bytes until a newline completes a line.
pub struct LineFramer {
    pending: Vec<u8>,
}

impl View for LineFramer {
    type V = Seq<u8>;

    /// The bytes received since the last complete line.
    closed spec fn view(&self) -> Seq<u8> {
        self.pending@
    }
}

impl LineFramer {
    /// A framer with nothing pending.
    pub fn new() -> (r: LineFramer)
        ensures
            r@ == Seq::<u8>::empty(),
    {
        LineFramer { pending: Vec::new() }
    }

    /// Takes one byte. When it is a newline, hands back the completed line,
    /// terminator included, and starts over; otherwise keeps it pending.
    pub fn push(&mut self, b: u8) -> (r: Option<Vec<u8>>)
        ensures
            b == NEWLINE ==> (r matches Some(l) && l@ == old(self)@.push(b)),
            b == NEWLINE ==> final(self)@ == Seq::<u8>::empty(),
            b != NEWLINE ==> r is None && final(self)@ == old(self)@.push(b),
    {
        self.pending.push(b);
        if b == NEWLINE {
            let mut line: Vec<u8> = Vec::new();
            core::mem::swap(&mut line, &mut self.pending);
            Some(line)
        } else {
            None
        }
    }

    /// The bytes of the unterminated fragment received so far.
    pub fn pending(&self) -> (r: &Vec<u8>)
        ensures
            r@ == self@,
    {
        &self.pending
    }
}

/// Frames a whole byte stream: the complete lines of `s`, in order, each with
/// its newline. A trailing fragment without a newline is never handed out.
pub fn frame_lines(s: &Vec<u8>) -> (r: Vec<Vec<u8>>)
    ensures
        r@.len() == newline_count(s@),
        concat_lines(r@) == complete_part(s@),
        forall|k: int| 0 <= k < r@.len() ==> is_line(#[trigger] r@[k]@),
{
    let mut framer = LineFramer::new();
    let mut lines: Vec<Vec<u8>> = Vec::new();
    let mut i: usize = 0;
    while i < s.len()
        invariant
            0 <= i <= s@.len(),
            concat_lines(lines@) + framer@ == s@.subrange(0, i as int),
            framer@.len() == fragment_len(s@.subrange(0, i as int)),
            lines@.len() == newline_count(s@.subrange(0, i as int)),
            forall|j: int| 0 <= j < framer@.len() ==> framer@[j] != NEWLINE,
            forall|k: int| 0 <= k < lines@.len() ==> is_line(#[trigger] lines@[k]@),
        decreases s@.len() - i,
    {
        let b = s[i];
        let ghost before = s@.subrange(0, i as int);
        let ghost after = s@.subrange(0, i + 1);
        let ghost old_lines = lines@;
        let ghost old_pending = framer@;
        assert(after.drop_last() == before);
        assert(after.last() == b);
        match framer.push(b) {
            Some(line) => {
                lines.push(line);
                assert(lines@.drop_last() == old_lines);
                assert(concat_lines(lines@) == concat_lines(old_lines) + old_pending.push(b));
                assert(concat_lines(lines@) + framer@ == after);
            },
            None => {
                assert(concat_lines(lines@) + framer@ == after);
            },
        }
        i = i + 1;
    }
    assert(s@.subrange(0, s@.len() as int) == s@);
    proof {
        lemma_fragment_len_bound(s@);
        assert(concat_lines(lines@) == s@.subrange(0, s@.len() - fragment_len(s@)));
    }
    lines
}

} // verus!
