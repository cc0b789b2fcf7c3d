//! The bridge to `xmlwriter`.
//!
//! `SvgWriter` owns an `xmlwriter::XmlWriter` and keeps, beside it, a ghost record of
//! the calls made on it. The record is what the painter's contracts speak of: each
//! painter operation states exactly which elements it opens, which attributes it
//! writes with which values, and which elements it closes, in order.

use vstd::prelude::*;
use vstd::utf8::encode_utf8;
use crate::style::{matrix_text, matrix_value, rgb_text, rgb_value, spread_keyword, spread_method_value, Extend, MatrixText, Rgba};

verus! {

#[verifier::external_type_specification]
#[verifier::external_body]
pub struct ExXmlWriter(xmlwriter::XmlWriter);

/// The bytes an `XmlWriter` has written to its internal buffer so far.
pub uninterp spec fn xml_buffer(w: xmlwriter::XmlWriter) -> Seq<u8>;

/// Whether an `XmlWriter` is inside a start tag, where attributes may be written:
/// true right after `start_element` and after each attribute written there.
pub uninterp spec fn xml_in_start_tag(w: xmlwriter::XmlWriter) -> bool;

/// A string with neither kind of quote mark in it.
pub open spec fn without_quotes(s: Seq<char>) -> bool {
    forall|i: int| 0 <= i < s.len() ==> s[i] != '"' && s[i] != '\''
}

/// Bytes that are all spaces, tabs or new lines.
pub open spec fn blank(bytes: Seq<u8>) -> bool {
    forall|i: int| 0 <= i < bytes.len() ==> bytes[i] == 32u8 || bytes[i] == 9u8 || bytes[i] == 10u8
}

/// `after` is `before` followed by what closes a pending start tag and lays out the new
/// one (`>`, spaces, tabs, new lines), then `<` and the name in UTF-8.
pub open spec fn start_tag_written(before: Seq<u8>, after: Seq<u8>, name: Seq<char>) -> bool {
    exists|mid: Seq<u8>|
        {
            &&& forall|i: int| 0 <= i < mid.len() ==> mid[i] == 62u8 || mid[i] == 32u8 || mid[i]
                == 9u8 || mid[i] == 10u8
            &&& after == before + mid + seq![60u8] + encode_utf8(name)
        }
}

/// `after` is `before` followed by a separator (spaces, tabs, new lines), the name, `=`,
/// a quote mark, the value and the same quote mark, all in UTF-8, when the value holds
/// no quote mark (a value with quote marks gets them escaped, which is not described).
pub open spec fn attribute_written(
    before: Seq<u8>,
    after: Seq<u8>,
    name: Seq<char>,
    value: Seq<char>,
) -> bool {
    without_quotes(value) ==> exists|sep: Seq<u8>, q: u8|
        {
            &&& sep.len() > 0
            &&& blank(sep)
            &&& q == 34u8 || q == 39u8
            &&& after == before + sep + encode_utf8(name) + seq![61u8, q] + encode_utf8(value)
                + seq![q]
        }
}

/// `after` is `before` unchanged (no element was open), or followed by `/>` (the element
/// had no children), or by a layout (spaces, tabs, new lines), `</`, a name and `>`.
pub open spec fn end_tag_written(before: Seq<u8>, after: Seq<u8>) -> bool {
    ||| after == before
    ||| after == before + seq![47u8, 62u8]
    ||| exists|sep: Seq<u8>, name: Seq<u8>|
        blank(sep) && after == before + sep + seq![60u8, 47u8] + name + seq![62u8]
}

/// `XmlWriter::start_element`: closes a pending start tag with `>`, writes a new line and
/// indentation as the writer's options ask, then `<` and the name. Afterwards the writer
/// is inside the new start tag. Which layout bytes come before `<` depends on the
/// writer's options and state and is not stated.
#[verifier::external_body]
fn xml_start_element(w: &mut xmlwriter::XmlWriter, name: &str)
    ensures
        xml_in_start_tag(*final(w)),
        start_tag_written(xml_buffer(*old(w)), xml_buffer(*final(w)), name@),
{
    w.start_element(name)
}

/// `XmlWriter::write_attribute`: panics unless the writer is inside a start tag, which
/// is therefore required. Writes a separator (a space, or a new line and indentation,
/// as the options ask), the name, `=`, the value between quote marks (double or single,
/// as the options ask) with quote marks inside it escaped. The writer stays inside the
/// start tag. Which separator and which quote mark are used is not stated, nor the
/// escaped form of a value that holds quote marks.
#[verifier::external_body]
fn xml_write_attribute(w: &mut xmlwriter::XmlWriter, name: &str, value: &str)
    requires
        xml_in_start_tag(*old(w)),
    ensures
        xml_in_start_tag(*final(w)),
        attribute_written(xml_buffer(*old(w)), xml_buffer(*final(w)), name@, value@),
{
    w.write_attribute(name, value)
}

/// `XmlWriter::end_element`: closes the innermost open element, with `/>` when it has no
/// children and otherwise with a new line and indentation (as the options ask), `</`,
/// its name and `>`; with no open element nothing is written. Afterwards the writer is
/// not inside a start tag. Which of these applies depends on the writer's state and is
/// not stated.
#[verifier::external_body]
fn xml_end_element(w: &mut xmlwriter::XmlWriter)
    ensures
        !xml_in_start_tag(*final(w)),
        end_tag_written(xml_buffer(*old(w)), xml_buffer(*final(w))),
{
    w.end_element()
}

/// One call made on the XML writer.
pub enum XmlCall {
    /// `start_element(name)`
    Start(Seq<char>),
    /// `write_attribute(name, value)`
    Attribute(Seq<char>, Seq<char>),
    /// `end_element()`
    End,
}

/// An XML writer together with the record of the calls made on it.
pub struct SvgWriter {
    writer: xmlwriter::XmlWriter,
    calls: Ghost<Seq<XmlCall>>,
}

impl SvgWriter {
    /// The calls made on the writer since it was wrapped, in order.
    pub closed spec fn calls(&self) -> Seq<XmlCall> {
        self.calls@
    }

    /// The bytes the writer holds.
    pub closed spec fn text(&self) -> Seq<u8> {
        xml_buffer(self.writer)
    }

    /// Whether the writer is inside a start tag.
    pub closed spec fn in_start_tag(&self) -> bool {
        xml_in_start_tag(self.writer)
    }

    /// Wraps `writer`, with an empty record of calls.
    pub fn new(writer: xmlwriter::XmlWriter) -> (s: SvgWriter)
        ensures
            s.calls() == Seq::<XmlCall>::empty(),
            s.text() == xml_buffer(writer),
            s.in_start_tag() == xml_in_start_tag(writer),
    {
        SvgWriter { writer, calls: Ghost(Seq::empty()) }
    }

    /// Gives the XML writer back.
    pub fn into_inner(self) -> (w: xmlwriter::XmlWriter)
        ensures
            xml_buffer(w) == self.text(),
            xml_in_start_tag(w) == self.in_start_tag(),
    {
        self.writer
    }

    /// Starts the element `name`.
    pub fn start_element(&mut self, name: &str)
        ensures
            final(self).calls() == old(self).calls().push(XmlCall::Start(name@)),
            final(self).in_start_tag(),
            start_tag_written(old(self).text(), final(self).text(), name@),
            calls_written(old(self).text(), seq![XmlCall::Start(name@)], final(self).text()),
    {
        xml_start_element(&mut self.writer, name);
        proof {
            self.calls@ = self.calls@.push(XmlCall::Start(name@));
            lemma_written_single(old(self).text(), XmlCall::Start(name@), self.text());
        }
    }

    /// Writes the attribute `name="value"` into the open start tag.
    pub fn write_attribute(&mut self, name: &str, value: &str)
        requires
            old(self).in_start_tag(),
        ensures
            final(self).calls() == old(self).calls().push(XmlCall::Attribute(name@, value@)),
            final(self).in_start_tag(),
            attribute_written(old(self).text(), final(self).text(), name@, value@),
            calls_written(
                old(self).text(),
                seq![XmlCall::Attribute(name@, value@)],
                final(self).text(),
            ),
    {
        xml_write_attribute(&mut self.writer, name, value);
        proof {
            self.calls@ = self.calls@.push(XmlCall::Attribute(name@, value@));
            lemma_written_single(old(self).text(), XmlCall::Attribute(name@, value@), self.text());
        }
    }

    /// Closes the innermost open element.
    pub fn end_element(&mut self)
        ensures
            final(self).calls() == old(self).calls().push(XmlCall::End),
            !final(self).in_start_tag(),
            end_tag_written(old(self).text(), final(self).text()),
            calls_written(old(self).text(), seq![XmlCall::End], final(self).text()),
    {
        xml_end_element(&mut self.writer);
        proof {
            self.calls@ = self.calls@.push(XmlCall::End);
            lemma_written_single(old(self).text(), XmlCall::End, self.text());
        }
    }

    /// Writes the colour attribute `name="rgb(R, G, B)"`.
    pub fn write_color_attribute(&mut self, name: &str, color: &Rgba)
        requires
            old(self).in_start_tag(),
        ensures
            final(self).calls() == old(self).calls().push(
                XmlCall::Attribute(name@, rgb_text(*color)),
            ),
            final(self).in_start_tag(),
            attribute_written(old(self).text(), final(self).text(), name@, rgb_text(*color)),
            calls_written(
                old(self).text(),
                seq![XmlCall::Attribute(name@, rgb_text(*color))],
                final(self).text(),
            ),
    {
        let value = rgb_value(color);
        self.write_attribute(name, value.as_str());
    }

    /// Writes the transform attribute `name="matrix(a b c d e f)"`; `None` stands for the
    /// identity transform, for which nothing is written.
    pub fn write_transform_attribute(&mut self, name: &str, ts: &Option<MatrixText>)
        requires
            old(self).in_start_tag(),
        ensures
            final(self).calls() == old(self).calls() + transform_calls(name@, *ts),
            final(self).in_start_tag(),
            (*ts) is None ==> final(self).text() == old(self).text(),
            (*ts) matches Some(m) ==> attribute_written(
                old(self).text(),
                final(self).text(),
                name@,
                matrix_text(m),
            ),
            calls_written(old(self).text(), transform_calls(name@, *ts), final(self).text()),
    {
        match ts {
            None => {
                proof {
                    assert(old(self).calls() + transform_calls(name@, *ts) =~= old(self).calls());
                    lemma_written_empty(self.text());
                }
            },
            Some(m) => {
                let value = matrix_value(m);
                self.write_attribute(name, value.as_str());
                proof {
                    assert(old(self).calls() + transform_calls(name@, *ts) =~= final(self).calls());
                }
            },
        }
    }

    /// Writes `spreadMethod` for `extend`; nothing for an unknown extend mode.
    pub fn write_spread_method_attribute(&mut self, extend: Extend)
        requires
            old(self).in_start_tag(),
        ensures
            final(self).calls() == old(self).calls() + spread_calls(extend),
            final(self).in_start_tag(),
            spread_keyword(extend) is None ==> final(self).text() == old(self).text(),
            spread_keyword(extend) matches Some(k) ==> attribute_written(
                old(self).text(),
                final(self).text(),
                "spreadMethod"@,
                k,
            ),
            calls_written(old(self).text(), spread_calls(extend), final(self).text()),
    {
        match spread_method_value(extend) {
            Some(value) => {
                self.write_attribute("spreadMethod", value);
                proof {
                    assert(old(self).calls() + spread_calls(extend) =~= final(self).calls());
                }
            },
            None => {
                proof {
                    assert(old(self).calls() + spread_calls(extend) =~= old(self).calls());
                    lemma_written_empty(self.text());
                }
            },
        }
    }
}

/// The bytes `after` follow from `before` by the one call `c`.
pub open spec fn call_written(before: Seq<u8>, after: Seq<u8>, c: XmlCall) -> bool {
    match c {
        XmlCall::Start(name) => start_tag_written(before, after, name),
        XmlCall::Attribute(name, value) => attribute_written(before, after, name, value),
        XmlCall::End => end_tag_written(before, after),
    }
}

/// The bytes `after` follow from `before` by the calls `calls`, in order: each call
/// appends what it writes to what the previous ones left.
pub open spec fn calls_written(before: Seq<u8>, calls: Seq<XmlCall>, after: Seq<u8>) -> bool
    decreases calls.len(),
{
    if calls.len() == 0 {
        after == before
    } else {
        exists|mid: Seq<u8>|
            calls_written(before, calls.drop_last(), mid) && call_written(
                mid,
                after,
                calls.last(),
            )
    }
}

/// No calls write nothing.
pub proof fn lemma_written_empty(a: Seq<u8>)
    ensures
        calls_written(a, Seq::empty(), a),
{
}

/// One call.
pub proof fn lemma_written_single(a: Seq<u8>, c: XmlCall, b: Seq<u8>)
    requires
        call_written(a, b, c),
    ensures
        calls_written(a, seq![c], b),
{
    let s = seq![c];
    assert(s.drop_last() =~= Seq::<XmlCall>::empty());
    assert(s.last() == c);
    assert(calls_written(a, s.drop_last(), a) && call_written(a, b, s.last()));
}

/// Law: what two runs of calls write one after the other is what their concatenation
/// writes.
pub proof fn law_written_concat(
    a: Seq<u8>,
    s1: Seq<XmlCall>,
    b: Seq<u8>,
    s2: Seq<XmlCall>,
    c: Seq<u8>,
)
    requires
        calls_written(a, s1, b),
        calls_written(b, s2, c),
    ensures
        calls_written(a, s1 + s2, c),
    decreases s2.len(),
{
    if s2.len() == 0 {
        assert(s1 + s2 =~= s1);
    } else {
        let mid = choose|mid: Seq<u8>|
            calls_written(b, s2.drop_last(), mid) && call_written(mid, c, s2.last());
        law_written_concat(a, s1, b, s2.drop_last(), mid);
        assert((s1 + s2).drop_last() =~= s1 + s2.drop_last());
        assert((s1 + s2).last() == s2.last());
    }
}

/// The runs `parts` one after another.
pub open spec fn joined_calls(parts: Seq<Seq<XmlCall>>) -> Seq<XmlCall>
    decreases parts.len(),
{
    if parts.len() == 0 {
        Seq::empty()
    } else {
        joined_calls(parts.drop_last()) + parts.last()
    }
}

/// A chain of runs: run `i` takes the bytes from `texts[i]` to `texts[i + 1]`.
pub proof fn lemma_written_chain(texts: Seq<Seq<u8>>, parts: Seq<Seq<XmlCall>>)
    requires
        texts.len() == parts.len() + 1,
        forall|i: int| 0 <= i < parts.len() ==> calls_written(texts[i], parts[i], texts[i + 1]),
    ensures
        calls_written(texts[0], joined_calls(parts), texts.last()),
    decreases parts.len(),
{
    if parts.len() == 0 {
    } else {
        let n = parts.len() - 1;
        lemma_written_chain(texts.drop_last(), parts.drop_last());
        assert(texts.drop_last().last() == texts[n]);
        law_written_concat(texts[0], joined_calls(parts.drop_last()), texts[n], parts[n], texts.last());
    }
}

/// The calls that write a transform attribute: none for the identity.
pub open spec fn transform_calls(name: Seq<char>, ts: Option<MatrixText>) -> Seq<XmlCall> {
    match ts {
        None => Seq::empty(),
        Some(m) => seq![XmlCall::Attribute(name, matrix_text(m))],
    }
}

/// The calls that write the spread method of a gradient.
pub open spec fn spread_calls(e: Extend) -> Seq<XmlCall> {
    match spread_keyword(e) {
        None => Seq::empty(),
        Some(k) => seq![XmlCall::Attribute("spreadMethod"@, k)],
    }
}

/// How a call changes the nesting depth: one deeper for a start, one shallower for an
/// end, no change for an attribute.
pub open spec fn depth_change(c: XmlCall) -> int {
    match c {
        XmlCall::Start(_) => 1,
        XmlCall::Attribute(_, _) => 0,
        XmlCall::End => -1,
    }
}

/// The change of nesting depth over the calls `calls`.
pub open spec fn depth_after(calls: Seq<XmlCall>) -> int
    decreases calls.len(),
{
    if calls.len() == 0 {
        0
    } else {
        depth_change(calls[0]) + depth_after(calls.drop_first())
    }
}

/// Starting at depth `base`, the calls never close an element that is not open.
pub open spec fn never_below(calls: Seq<XmlCall>, base: int) -> bool
    decreases calls.len(),
{
    if calls.len() == 0 {
        true
    } else {
        base + depth_change(calls[0]) >= 0 && never_below(
            calls.drop_first(),
            base + depth_change(calls[0]),
        )
    }
}

/// The calls close exactly the elements they open, never one that is not open.
pub open spec fn balanced(calls: Seq<XmlCall>) -> bool {
    never_below(calls, 0) && depth_after(calls) == 0
}

/// Only attributes.
pub open spec fn only_attributes(calls: Seq<XmlCall>) -> bool {
    forall|i: int| 0 <= i < calls.len() ==> calls[i] is Attribute
}

/// Depth and the never-below property over a concatenation.
pub proof fn lemma_concat(a: Seq<XmlCall>, b: Seq<XmlCall>, base: int)
    ensures
        depth_after(a + b) == depth_after(a) + depth_after(b),
        never_below(a + b, base) == (never_below(a, base) && never_below(
            b,
            base + depth_after(a),
        )),
    decreases a.len(),
{
    if a.len() == 0 {
        assert(a + b =~= b);
    } else {
        assert((a + b).drop_first() =~= a.drop_first() + b);
        assert((a + b)[0] == a[0]);
        lemma_concat(a.drop_first(), b, base + depth_change(a[0]));
    }
}

/// Attributes leave the depth as it is.
pub proof fn lemma_attributes(calls: Seq<XmlCall>, base: int)
    requires
        only_attributes(calls),
        base >= 0,
    ensures
        depth_after(calls) == 0,
        never_below(calls, base),
    decreases calls.len(),
{
    if calls.len() > 0 {
        assert(calls[0] is Attribute);
        assert(only_attributes(calls.drop_first())) by {
            assert forall|i: int| 0 <= i < calls.drop_first().len() implies calls.drop_first()[i] is Attribute by {
                assert(calls.drop_first()[i] == calls[i + 1]);
            }
        }
        lemma_attributes(calls.drop_first(), base);
    }
}

/// A single call.
pub proof fn lemma_single(c: XmlCall, base: int)
    ensures
        depth_after(seq![c]) == depth_change(c),
        never_below(seq![c], base) == (base + depth_change(c) >= 0),
{
    let s = seq![c];
    assert(s.drop_first() =~= Seq::<XmlCall>::empty());
    assert(s[0] == c);
    assert(depth_after(s.drop_first()) == 0);
    assert(never_below(s.drop_first(), base + depth_change(c)));
}

/// An element: its start, its attributes, its children and its end.
pub open spec fn element(name: Seq<char>, attrs: Seq<XmlCall>, children: Seq<XmlCall>) -> Seq<
    XmlCall,
> {
    seq![XmlCall::Start(name)] + attrs + children + seq![XmlCall::End]
}

/// Attributes followed by attributes are attributes.
pub proof fn lemma_attributes_concat(a: Seq<XmlCall>, b: Seq<XmlCall>)
    requires
        only_attributes(a),
        only_attributes(b),
    ensures
        only_attributes(a + b),
{
    assert forall|i: int| 0 <= i < (a + b).len() implies (a + b)[i] is Attribute by {
        if i < a.len() {
            assert((a + b)[i] == a[i]);
        } else {
            assert((a + b)[i] == b[i - a.len()]);
        }
    }
}

/// Calls that leave the depth as it is and never go below `base` at any depth at or
/// above `base`.
pub open spec fn neutral(calls: Seq<XmlCall>) -> bool {
    depth_after(calls) == 0 && forall|base: int| base >= 0 ==> #[trigger] never_below(calls, base)
}

/// Neutral calls followed by neutral calls are neutral.
pub proof fn lemma_neutral_concat(a: Seq<XmlCall>, b: Seq<XmlCall>)
    requires
        neutral(a),
        neutral(b),
    ensures
        neutral(a + b),
{
    assert forall|base: int| base >= 0 implies #[trigger] never_below(a + b, base) by {
        lemma_concat(a, b, base);
        assert(never_below(a, base));
        assert(never_below(b, base));
    }
    lemma_concat(a, b, 0);
}

/// Attributes are neutral.
pub proof fn lemma_attributes_neutral(calls: Seq<XmlCall>)
    requires
        only_attributes(calls),
    ensures
        neutral(calls),
{
    assert forall|base: int| base >= 0 implies #[trigger] never_below(calls, base) by {
        lemma_attributes(calls, base);
    }
    lemma_attributes(calls, 0);
}

/// An element with attributes only between its start and its children, and neutral
/// children, is neutral.
pub proof fn lemma_element(name: Seq<char>, attrs: Seq<XmlCall>, children: Seq<XmlCall>)
    requires
        only_attributes(attrs),
        neutral(children),
    ensures
        neutral(element(name, attrs, children)),
{
    let start = seq![XmlCall::Start(name)];
    let end = seq![XmlCall::End];
    assert forall|base: int| base >= 0 implies #[trigger] never_below(
        element(name, attrs, children),
        base,
    ) by {
        lemma_single(XmlCall::Start(name), base);
        lemma_attributes(attrs, base + 1);
        assert(never_below(children, base + 1));
        lemma_single(XmlCall::End, base + 1);
        lemma_concat(start, attrs, base);
        lemma_concat(start + attrs, children, base);
        lemma_concat(start + attrs + children, end, base);
    }
    lemma_single(XmlCall::Start(name), 0);
    lemma_single(XmlCall::End, 0);
    lemma_attributes(attrs, 1);
    lemma_concat(start, attrs, 0);
    lemma_concat(start + attrs, children, 0);
    lemma_concat(start + attrs + children, end, 0);
}

/// Neutral calls are balanced.
pub proof fn lemma_neutral_balanced(calls: Seq<XmlCall>)
    requires
        neutral(calls),
    ensures
        balanced(calls),
{
    assert(never_below(calls, 0));
}

/// Starting deeper never makes the calls go below zero.
proof fn lemma_never_below_monotone(calls: Seq<XmlCall>, b1: int, b2: int)
    requires
        never_below(calls, b1),
        b1 <= b2,
    ensures
        never_below(calls, b2),
    decreases calls.len(),
{
    if calls.len() > 0 {
        lemma_never_below_monotone(
            calls.drop_first(),
            b1 + depth_change(calls[0]),
            b2 + depth_change(calls[0]),
        );
    }
}

/// Balanced calls are neutral: from any number of open elements they close exactly
/// what they open.
pub proof fn lemma_balanced_neutral(calls: Seq<XmlCall>)
    requires
        balanced(calls),
    ensures
        neutral(calls),
{
    assert forall|base: int| base >= 0 implies #[trigger] never_below(calls, base) by {
        lemma_never_below_monotone(calls, 0, base);
    }
}

} // verus!
