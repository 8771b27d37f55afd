use vstd::prelude::*;
use vstd::string::*;

use core::fmt::Display;

use crate::continuous::ContinuousRange;
use crate::order::Ordered;
use crate::range::Range;

verus! {

/// `text` is what `Display` writes for `v`.
pub open spec fn displays<T: Display>(v: T, text: String) -> bool {
    to_string_from_display_ensures::<T>(&v, text)
}

/// The texts of several ranges, separated by `; `.
pub open spec fn joined(texts: Seq<Seq<char>>) -> Seq<char>
    decreases texts.len(),
{
    if texts.len() == 0 {
        Seq::empty()
    } else if texts.len() == 1 {
        texts[0]
    } else {
        joined(texts.drop_last()) + seq![';', ' '] + texts.last()
    }
}

impl<Idx: Ordered + Display> ContinuousRange<Idx> {
    /// The interval notation of the range, given the texts of its start and
    /// end values: `[]` when `Empty`, the value alone when `Single`, `(..)`
    /// when `Full`, else the bounds between `[`/`(` and `]`/`)` as they are
    /// included or not, separated by `..`.
    pub open spec fn layout(self, start: Seq<char>, end: Seq<char>) -> Seq<char> {
        match self {
            ContinuousRange::Empty => seq!['[', ']'],
            ContinuousRange::Single(_) => start,
            ContinuousRange::Inclusive(_, _) => seq!['['] + start + seq!['.', '.'] + end + seq![']'],
            ContinuousRange::Exclusive(_, _) => seq!['('] + start + seq!['.', '.'] + end + seq![')'],
            ContinuousRange::StartExclusive(_, _) => seq!['('] + start + seq!['.', '.'] + end
                + seq![']'],
            ContinuousRange::EndExclusive(_, _) => seq!['['] + start + seq!['.', '.'] + end + seq![
                ')',
            ],
            ContinuousRange::From(_) => seq!['['] + start + seq!['.', '.', ')'],
            ContinuousRange::FromExclusive(_) => seq!['('] + start + seq!['.', '.', ')'],
            ContinuousRange::To(_) => seq!['(', '.', '.'] + end + seq![']'],
            ContinuousRange::ToExclusive(_) => seq!['(', '.', '.'] + end + seq![')'],
            ContinuousRange::Full => seq!['(', '.', '.', ')'],
        }
    }

    /// `text` is the layout of the range with `start` and `end` written for
    /// its bounded start and end values.
    pub open spec fn written_with(self, start: String, end: String, text: Seq<char>) -> bool {
        &&& (self.lower() is Unbounded || displays(self.lower().spec_value(), start))
        &&& (self.upper() is Unbounded || self is Single || displays(
            self.upper().spec_value(),
            end,
        ))
        &&& text == self.layout(start@, end@)
    }

    /// `text` is the interval notation of the range.
    pub open spec fn written_as(self, text: Seq<char>) -> bool {
        exists|start: String, end: String| #[trigger] self.written_with(start, end, text)
    }

    /// The range in interval notation, such as `[1..5)`, `(..3]` or `[]`.
    pub fn notation(&self) -> (r: String)
        ensures
            self.written_as(r@),
    {
        proof {
            reveal_strlit("[]");
            reveal_strlit("(..)");
            reveal_strlit("[");
            reveal_strlit("(");
            reveal_strlit("]");
            reveal_strlit(")");
            reveal_strlit("..");
            reveal_strlit("..)");
            reveal_strlit("(..");
            assert("[]"@ =~= seq!['[', ']']);
            assert("(..)"@ =~= seq!['(', '.', '.', ')']);
            assert("["@ =~= seq!['[']);
            assert("("@ =~= seq!['(']);
            assert("]"@ =~= seq![']']);
            assert(")"@ =~= seq![')']);
            assert("..)"@ =~= seq!['.', '.', ')']);
            assert("(.."@ =~= seq!['(', '.', '.']);
        }
        match *self {
            ContinuousRange::Empty => {
                let out = String::from_str("[]");
                assert(self.written_with(out, out, out@));
                out
            },
            ContinuousRange::Full => {
                let out = String::from_str("(..)");
                assert(self.written_with(out, out, out@));
                out
            },
            ContinuousRange::Single(v) => {
                let a = v.to_string();
                let out = String::from_str(a.as_str());
                assert(self.written_with(a, a, out@));
                out
            },
            ContinuousRange::Inclusive(s, e) => {
                let (a, b) = (s.to_string(), e.to_string());
                let out = between("[", &a, &b, "]");
                assert(self.written_with(a, b, out@));
                out
            },
            ContinuousRange::Exclusive(s, e) => {
                let (a, b) = (s.to_string(), e.to_string());
                let out = between("(", &a, &b, ")");
                assert(self.written_with(a, b, out@));
                out
            },
            ContinuousRange::StartExclusive(s, e) => {
                let (a, b) = (s.to_string(), e.to_string());
                let out = between("(", &a, &b, "]");
                assert(self.written_with(a, b, out@));
                out
            },
            ContinuousRange::EndExclusive(s, e) => {
                let (a, b) = (s.to_string(), e.to_string());
                let out = between("[", &a, &b, ")");
                assert(self.written_with(a, b, out@));
                out
            },
            ContinuousRange::From(s) => {
                let a = s.to_string();
                let mut out = String::from_str("[");
                out.append(a.as_str());
                out.append("..)");
                assert(self.written_with(a, a, out@));
                out
            },
            ContinuousRange::FromExclusive(s) => {
                let a = s.to_string();
                let mut out = String::from_str("(");
                out.append(a.as_str());
                out.append("..)");
                assert(self.written_with(a, a, out@));
                out
            },
            ContinuousRange::To(e) => {
                let b = e.to_string();
                let mut out = String::from_str("(..");
                out.append(b.as_str());
                out.append("]");
                assert(self.written_with(b, b, out@));
                out
            },
            ContinuousRange::ToExclusive(e) => {
                let b = e.to_string();
                let mut out = String::from_str("(..");
                out.append(b.as_str());
                out.append(")");
                assert(self.written_with(b, b, out@));
                out
            },
        }
    }
}

/// `open`, the start text, `..`, the end text and `close`.
fn between(open: &str, start: &String, end: &String, close: &str) -> (r: String)
    ensures
        r@ == open@ + start@ + seq!['.', '.'] + end@ + close@,
{
    proof {
        reveal_strlit("..");
        assert(".."@ =~= seq!['.', '.']);
    }
    let mut out = String::from_str(open);
    out.append(start.as_str());
    out.append("..");
    out.append(end.as_str());
    out.append(close);
    out
}

impl<Idx: Ordered + Display> Range<Idx> {
    /// `text` is the notation of the range: that of its continuous range, or
    /// the notations of its parts separated by `; ` between braces.
    pub open spec fn written_as(&self, text: Seq<char>) -> bool {
        match self {
            Range::Continuous(c) => c.written_as(text),
            Range::Composite(v) => exists|texts: Seq<Seq<char>>| #[trigger]
                parts_written_as(v@, texts) && text == seq!['{'] + joined(texts) + seq!['}'],
        }
    }

    /// The range in interval notation; a composite range lists its parts
    /// between braces, such as `{[1..3); [5..)}`.
    pub fn notation(&self) -> (r: String)
        ensures
            self.written_as(r@),
    {
        match self {
            Range::Continuous(c) => c.notation(),
            Range::Composite(v) => {
                proof {
                    reveal_strlit("{");
                    reveal_strlit("}");
                    assert("{"@ =~= seq!['{']);
                    assert("}"@ =~= seq!['}']);
                }
                let mut out = String::from_str("{");
                let ghost mut texts: Seq<Seq<char>> = Seq::empty();
                let mut i: usize = 0;
                while i < v.len()
                    invariant
                        i <= v.len(),
                        texts.len() == i,
                        parts_written_as(v@.subrange(0, i as int), texts),
                        out@ == seq!['{'] + joined(texts),
                    decreases v.len() - i,
                {
                    proof {
                        reveal_strlit("; ");
                        assert("; "@ =~= seq![';', ' ']);
                    }
                    let ghost before = out@;
                    if i > 0 {
                        out.append("; ");
                    }
                    let ghost middle = out@;
                    let part = v[i].notation();
                    out.append(part.as_str());
                    proof {
                        let old_texts = texts;
                        texts = texts.push(part@);
                        assert(texts.drop_last() =~= old_texts);
                        assert(v@.subrange(0, i + 1).drop_last() =~= v@.subrange(0, i as int));
                        if i > 0 {
                            assert(joined(texts) == joined(old_texts) + seq![';', ' '] + part@);
                            assert(middle == before + seq![';', ' ']);
                        }
                        assert(out@ =~= seq!['{'] + joined(texts));
                    }
                    i = i + 1;
                }
                out.append("}");
                proof {
                    assert(v@.subrange(0, i as int) =~= v@);
                    assert(parts_written_as(v@, texts));
                }
                out
            },
        }
    }
}

/// Each range is written as the text at the same place.
pub open spec fn parts_written_as<Idx: Ordered + Display>(
    parts: Seq<ContinuousRange<Idx>>,
    texts: Seq<Seq<char>>,
) -> bool
    decreases parts.len(),
{
    parts.len() == texts.len() && (parts.len() > 0 ==> parts.last().written_as(texts.last())
        && parts_written_as(parts.drop_last(), texts.drop_last()))
}

} // verus!
