//! What is written for each child's output: an aligned tag per server, the
//! markers around its stream, and each tagged line as one buffer.

use vstd::prelude::*;
use vstd::string::*;
use crate::plan::ServerDescriptor;

verus! {

/// The two colours that tell the servers apart: the first server gets one,
/// every other server the other.
#[derive(Clone, Copy, Debug, PartialEq, Eq, Structural)]
pub enum TagColor {
    Primary,
    Secondary,
}

/// The length of the longest name among the first `k` of `descs`.
pub open spec fn max_name_len(descs: Seq<ServerDescriptor>, k: int) -> nat
    decreases k,
{
    if k <= 0 {
        0
    } else {
        let m = max_name_len(descs, k - 1);
        if descs[k - 1].name@.len() > m {
            descs[k - 1].name@.len()
        } else {
            m
        }
    }
}

proof fn lemma_max_name_len(descs: Seq<ServerDescriptor>, k: int, i: int)
    requires
        0 <= i < k,
    ensures
        descs[i].name@.len() <= max_name_len(descs, k),
    decreases k,
{
    if i < k - 1 {
        lemma_max_name_len(descs, k - 1, i);
    }
}

/// `n` spaces.
pub open spec fn spaces(n: nat) -> Seq<char> {
    Seq::new(n, |_j: int| ' ')
}

/// A server's tag: its name between spaces, padded on the right to the
/// longest name, and its colour.
pub struct StreamTag {
    pub label: String,
    pub color: TagColor,
}

/// The tag of the server at `index` of `descs`.
pub fn stream_tag(descs: &Vec<ServerDescriptor>, index: usize) -> (r: StreamTag)
    requires
        index < descs@.len(),
    ensures
        r.label@ == " "@ + descs@[index as int].name@ + spaces(
            (max_name_len(descs@, descs@.len() as int) - descs@[index as int].name@.len()) as nat,
        ) + " "@,
        r.color == (if index == 0 { TagColor::Primary } else { TagColor::Secondary }),
{
    let mut width: usize = 0;
    let mut k: usize = 0;
    while k < descs.len()
        invariant
            k <= descs@.len(),
            width == max_name_len(descs@, k as int),
        decreases descs@.len() - k,
    {
        let l = descs[k].name.as_str().unicode_len();
        if l > width {
            width = l;
        }
        k = k + 1;
    }
    proof {
        lemma_max_name_len(descs@, descs@.len() as int, index as int);
    }
    let name = descs[index].name.as_str();
    let pad = width - name.unicode_len();
    let mut label = String::from_str(" ");
    label.append(name);
    let ghost base = label@;
    let mut j: usize = 0;
    while j < pad
        invariant
            j <= pad,
            label@ == base + spaces(j as nat),
        decreases pad - j,
    {
        label.append(" ");
        proof {
            reveal_strlit(" ");
        }
        assert(base + spaces(j as nat) + " "@ =~= base + spaces((j + 1) as nat));
        assert(spaces(j as nat).push(' ') =~= spaces((j + 1) as nat));
        j = j + 1;
    }
    label.append(" ");
    StreamTag { label, color: if index == 0 { TagColor::Primary } else { TagColor::Secondary } }
}

/// The line written before a child's first output.
pub fn start_marker(name: &str) -> (r: String)
    ensures
        r@ == " ["@ + name@ + "] :: start of stdout "@,
{
    let mut r = String::from_str(" [");
    r.append(name);
    r.append("] :: start of stdout ");
    r
}

/// The line written after a child's output has ended.
pub fn end_marker(name: &str) -> (r: String)
    ensures
        r@ == "\n ["@ + name@ + "] :: end of stdout "@,
{
    let mut r = String::from_str("\n [");
    r.append(name);
    r.append("] :: end of stdout ");
    r
}

/// One tagged line, ready to be written at once: the tag and separator
/// bytes `header`, a space, then the line verbatim.
pub fn tagged_line(header: &Vec<u8>, line: &Vec<u8>) -> (r: Vec<u8>)
    requires
        header@.len() + line@.len() < usize::MAX,
    ensures
        r@ == header@ + seq![32u8] + line@,
{
    let mut r: Vec<u8> = Vec::new();
    let mut i: usize = 0;
    while i < header.len()
        invariant
            i <= header@.len(),
            r@ == header@.subrange(0, i as int),
        decreases header@.len() - i,
    {
        r.push(header[i]);
        assert(header@.subrange(0, i + 1) == header@.subrange(0, i as int).push(header@[i as int]));
        i = i + 1;
    }
    assert(header@.subrange(0, header@.len() as int) == header@);
    r.push(32u8);
    let ghost front = r@;
    let mut j: usize = 0;
    while j < line.len()
        invariant
            j <= line@.len(),
            r@ == front + line@.subrange(0, j as int),
        decreases line@.len() - j,
    {
        r.push(line[j]);
        assert(line@.subrange(0, j + 1) == line@.subrange(0, j as int).push(line@[j as int]));
        j = j + 1;
    }
    assert(line@.subrange(0, line@.len() as int) == line@);
    r
}

/// The kinds of banner line the launcher prints.
#[derive(Clone, Copy, Debug, PartialEq, Eq, Structural)]
pub enum Style {
    StatusInfo,
    SubHeader,
    Header,
}

impl Style {
    /// Columns taken by the fixed decoration around a banner's text, for
    /// the styles whose bar fills the rest of the terminal line.
    pub open spec fn decoration(self) -> nat {
        match self {
            Style::Header => 20,
            Style::StatusInfo => 16,
            Style::SubHeader => 0,
        }
    }

    /// How many columns of fill follow a banner's text on a terminal
    /// `width` columns wide; `None` when the text and decoration do not fit.
    /// A sub-header has no fill.
    pub fn fill_width(self, width: usize, text_len: usize) -> (r: Option<usize>)
        ensures
            self == Style::SubHeader ==> r == Some(0usize),
            self != Style::SubHeader ==> r == (if text_len + self.decoration() <= width {
                Some((width - text_len - self.decoration()) as usize)
            } else {
                None
            }),
    {
        let deco: usize = match self {
            Style::Header => 20,
            Style::StatusInfo => 16,
            Style::SubHeader => {
                return Some(0);
            },
        };
        if text_len <= width && deco <= width - text_len {
            Some(width - text_len - deco)
        } else {
            None
        }
    }
}

} // verus!
