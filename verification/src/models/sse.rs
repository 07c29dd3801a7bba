//! Reading server-sent events: the lines of a streamed response, as
//! chunks of it arrive.
//!
//! Complete lines are taken from the front of a buffer; a line that,
//! trimmed, starts with `data:` carries the text after that prefix,
//! trimmed again, and `[DONE]` there ends the stream.  Other lines are
//! skipped.
use crate::text::{chars_of, push_char, string_of, trim, trim_chars, has_prefix};
use vstd::prelude::*;

verus! {

/// What a `data:` line carries.
#[derive(Debug)]
pub enum SseItem {
    /// The end of the stream, `[DONE]`.
    Done,
    /// An event's data.
    Data(String),
}

/// The abstract value of an item.
pub enum SseItemModel {
    /// The end of the stream.
    Done,
    /// An event's data.
    Data(Seq<char>),
}

impl View for SseItem {
    type V = SseItemModel;

    open spec fn view(&self) -> SseItemModel {
        match self {
            SseItem::Done => SseItemModel::Done,
            SseItem::Data(s) => SseItemModel::Data(s@),
        }
    }
}

/// The first position of `c` in `s`.
pub open spec fn first_char(s: Seq<char>, c: char) -> Option<int>
    decreases s.len(),
{
    if s.len() == 0 {
        None
    } else if s[0] == c {
        Some(0)
    } else {
        match first_char(s.drop_first(), c) {
            Some(i) => Some(i + 1),
            None => None,
        }
    }
}

/// `first_char` finds the first occurrence.
pub proof fn lemma_first_char(s: Seq<char>, c: char)
    ensures
        first_char(s, c) matches Some(i) ==> 0 <= i < s.len() && s[i] == c && forall|j: int|
            0 <= j < i ==> s[j] != c,
        first_char(s, c) is None ==> forall|j: int| 0 <= j < s.len() ==> s[j] != c,
    decreases s.len(),
{
    if s.len() > 0 {
        lemma_first_char(s.drop_first(), c);
        if s[0] != c {
            assert forall|j: int| 1 <= j < s.len() implies s[j] == s.drop_first()[j - 1] by {}
        }
    }
}

/// What a data line's text is, if the line is one.
pub open spec fn line_item(line: Seq<char>) -> Option<SseItemModel> {
    let l = trim(line);
    if l.len() == 0 || !has_prefix(l, "data:"@) {
        None
    } else {
        let d = trim(l.skip(5));
        if d == "[DONE]"@ {
            Some(SseItemModel::Done)
        } else {
            Some(SseItemModel::Data(d))
        }
    }
}

/// The next item among the complete lines of `buf`, and what is left
/// of `buf` after the line that carried it (or after the last complete
/// line, when none did).
pub open spec fn next_item(buf: Seq<char>) -> (Option<SseItemModel>, Seq<char>)
    decreases buf.len(),
{
    match first_char(buf, '\n') {
        None => (None, buf),
        Some(p) => {
            proof {
                lemma_first_char(buf, '\n');
            }
            let rest = buf.skip(p + 1);
            match line_item(buf.take(p)) {
                Some(item) => (Some(item), rest),
                None => if 0 <= p < buf.len() {
                    next_item(rest)
                } else {
                    (None, rest)
                },
            }
        },
    }
}

/// A buffer of streamed text, read line by line.
#[derive(Debug)]
pub struct SseBuffer {
    buf: Vec<char>,
}

impl View for SseBuffer {
    type V = Seq<char>;

    closed spec fn view(&self) -> Seq<char> {
        self.buf@
    }
}

/// The characters of `v` from `a` on.
fn chars_from(v: &Vec<char>, a: usize) -> (r: Vec<char>)
    requires
        a <= v@.len(),
    ensures
        r@ == v@.skip(a as int),
{
    let mut r: Vec<char> = Vec::new();
    let mut i: usize = a;
    while i < v.len()
        invariant
            a <= i <= v@.len(),
            r@ == v@.subrange(a as int, i as int),
        decreases v.len() - i,
    {
        r.push(v[i]);
        assert(r@ =~= v@.subrange(a as int, i + 1));
        i += 1;
    }
    r
}

/// The characters of `v` before `b`.
fn chars_before(v: &Vec<char>, b: usize) -> (r: Vec<char>)
    requires
        b <= v@.len(),
    ensures
        r@ == v@.take(b as int),
{
    let mut r: Vec<char> = Vec::new();
    let mut i: usize = 0;
    while i < b
        invariant
            i <= b <= v@.len(),
            r@ == v@.take(i as int),
        decreases b - i,
    {
        r.push(v[i]);
        assert(r@ =~= v@.take(i + 1));
        i += 1;
    }
    r
}

/// What a line carries, if it is a data line.
fn read_line(line: &Vec<char>) -> (r: Option<SseItem>)
    ensures
        match r {
            Some(it) => line_item(line@) == Some(it@),
            None => line_item(line@) is None,
        },
{
    proof {
        reveal_strlit("data:");
        reveal_strlit("[DONE]");
    }
    let l = trim_chars(line);
    let prefix = chars_of("data:");
    if l.len() == 0 || !crate::text::starts_with(&l, &prefix) {
        return None;
    }
    let rest = chars_from(&l, 5);
    let d = trim_chars(&rest);
    let done = chars_of("[DONE]");
    if crate::text::starts_with(&d, &done) && d.len() == done.len() {
        assert(d@ =~= "[DONE]"@);
        Some(SseItem::Done)
    } else {
        assert(d@ != "[DONE]"@) by {
            if d@ == "[DONE]"@ {
                assert(d@.take(done@.len() as int) =~= d@);
            }
        }
        Some(SseItem::Data(string_of(&d)))
    }
}

impl SseBuffer {
    /// An empty buffer.
    pub fn new() -> (b: Self)
        ensures
            b@ == Seq::<char>::empty(),
    {
        SseBuffer { buf: Vec::new() }
    }

    /// Appends a chunk of the stream.
    pub fn push(&mut self, chunk: &str)
        ensures
            final(self)@ == old(self)@ + chunk@,
    {
        let cs = chars_of(chunk);
        let mut i: usize = 0;
        let ghost start = self.buf@;
        while i < cs.len()
            invariant
                i <= cs@.len(),
                cs@ == chunk@,
                self.buf@ == start + cs@.take(i as int),
            decreases cs.len() - i,
        {
            self.buf.push(cs[i]);
            assert(start + cs@.take(i + 1) =~= (start + cs@.take(i as int)).push(cs@[i as int]));
            i += 1;
        }
        assert(cs@.take(cs@.len() as int) == cs@);
    }

    /// Takes complete lines off the front until one carries an item, and
    /// gives that item; `None` when no complete line is left.
    pub fn next_item(&mut self) -> (r: Option<SseItem>)
        ensures
            match r {
                Some(it) => next_item(old(self)@) == (Some(it@), final(self)@),
                None => next_item(old(self)@) == (None::<SseItemModel>, final(self)@),
            },
    {
        let ghost start = self.buf@;
        loop
            invariant
                start == old(self)@,
                next_item(start) == next_item(self.buf@),
            decreases self.buf@.len(),
        {
            let ghost cur = self.buf@;
            proof {
                lemma_first_char(cur, '\n');
            }
            let mut p: usize = 0;
            while p < self.buf.len() && self.buf[p] != '\n'
                invariant
                    p <= self.buf@.len(),
                    self.buf@ == cur,
                    forall|j: int| 0 <= j < p ==> cur[j] != '\n',
                decreases self.buf.len() - p,
            {
                p += 1;
            }
            if p == self.buf.len() {
                assert(first_char(cur, '\n') is None) by {
                    if first_char(cur, '\n') is Some {
                        let q = first_char(cur, '\n')->0;
                        assert(cur[q] == '\n');
                    }
                }
                return None;
            }
            assert(first_char(cur, '\n') == Some(p as int)) by {
                let q = first_char(cur, '\n');
                if q is None {
                    assert(cur[p as int] == '\n');
                } else {
                    let qq = q->0;
                    if qq < p {
                        assert(cur[qq] != '\n');
                    } else if qq > p {
                        assert(cur[p as int] == '\n');
                    }
                }
            }
            let line = chars_before(&self.buf, p);
            let rest = chars_from(&self.buf, p + 1);
            self.buf = rest;
            match read_line(&line) {
                Some(it) => {
                    return Some(it);
                },
                None => {},
            }
        }
    }
}

} // verus!
