//! Markup documents as sequences of events, and their rendering as XML text
//! by the event writer of the `xml-rs` crate.

use vstd::prelude::*;

verus! {

/// One step in the writing of a markup document.
#[derive(Clone, Debug, PartialEq, Eq)]
pub enum MarkupEvent {
    /// An element begins, with its attributes in order.
    Open { name: String, attributes: Vec<(String, String)> },
    /// Character data inside the element that is open.
    Text(String),
    /// The element that was opened last and is still open ends.
    Close,
}

/// What a `MarkupEvent` says, as plain sequences of characters.
pub enum Markup {
    Open { name: Seq<char>, attributes: Seq<(Seq<char>, Seq<char>)> },
    Text(Seq<char>),
    Close,
}

/// The attributes as plain sequences of characters.
pub open spec fn spec_attributes(attributes: Seq<(String, String)>) -> Seq<(Seq<char>, Seq<char>)> {
    Seq::new(attributes.len(), |i: int| (attributes[i].0@, attributes[i].1@))
}

impl View for MarkupEvent {
    type V = Markup;

    open spec fn view(&self) -> Markup {
        match self {
            MarkupEvent::Open { name, attributes } => Markup::Open {
                name: name@,
                attributes: spec_attributes(attributes@),
            },
            MarkupEvent::Text(text) => Markup::Text(text@),
            MarkupEvent::Close => Markup::Close,
        }
    }
}

/// What the events say, one for one.
pub open spec fn spec_markup(events: Seq<MarkupEvent>) -> Seq<Markup> {
    Seq::new(events.len(), |i: int| events[i]@)
}

/// The number of elements that are open after `events`, given that no event
/// among them closes what was not open.
pub open spec fn spec_depth(events: Seq<Markup>) -> int
    decreases events.len(),
{
    if events.len() == 0 {
        0
    } else {
        match events.last() {
            Markup::Open { .. } => spec_depth(events.drop_last()) + 1,
            Markup::Text(_) => spec_depth(events.drop_last()),
            Markup::Close => spec_depth(events.drop_last()) - 1,
        }
    }
}

/// Whether the events can be written one after the other: none of them closes
/// an element when none is open.
pub open spec fn spec_writable(events: Seq<Markup>) -> bool {
    forall|n: int| 0 <= n <= events.len() ==> spec_depth(#[trigger] events.take(n)) >= 0
}

/// Whether the events form a piece that stands on its own: they can be
/// written, and they close every element that they open.
pub open spec fn spec_closed(events: Seq<Markup>) -> bool {
    spec_writable(events) && spec_depth(events) == 0
}

/// The elements left open by two runs of events add up.
pub proof fn lemma_depth_append(a: Seq<Markup>, b: Seq<Markup>)
    ensures
        spec_depth(a + b) == spec_depth(a) + spec_depth(b),
    decreases b.len(),
{
    if b.len() == 0 {
        assert(a + b =~= a);
    } else {
        lemma_depth_append(a, b.drop_last());
        assert((a + b).drop_last() =~= a + b.drop_last());
        assert((a + b).last() == b.last());
    }
}

/// What can be written after nothing can be written after anything that can
/// be written.
pub proof fn lemma_writable_append(a: Seq<Markup>, b: Seq<Markup>)
    requires
        spec_writable(a),
        spec_writable(b),
    ensures
        spec_writable(a + b),
        spec_depth(a + b) == spec_depth(a) + spec_depth(b),
{
    lemma_depth_append(a, b);
    assert forall|n: int| 0 <= n <= (a + b).len() implies spec_depth(#[trigger] (a + b).take(n))
        >= 0 by {
        if n <= a.len() {
            assert((a + b).take(n) =~= a.take(n));
        } else {
            assert((a + b).take(n) =~= a + b.take(n - a.len()));
            lemma_depth_append(a, b.take(n - a.len()));
            assert(a.take(a.len() as int) =~= a);
        }
    }
}

/// Pieces that stand on their own do so together.
pub proof fn lemma_closed_append(a: Seq<Markup>, b: Seq<Markup>)
    requires
        spec_closed(a),
        spec_closed(b),
    ensures
        spec_closed(a + b),
{
    lemma_writable_append(a, b);
}

/// No events stand on their own.
pub proof fn lemma_closed_empty()
    ensures
        spec_closed(Seq::<Markup>::empty()),
{
    assert forall|n: int| 0 <= n <= 0 implies spec_depth(
        #[trigger] Seq::<Markup>::empty().take(n),
    ) >= 0 by {
        assert(Seq::<Markup>::empty().take(n) =~= Seq::<Markup>::empty());
    }
}

/// One event on its own: what it leaves open, and that it can be written
/// unless it closes.
pub proof fn lemma_single(event: Markup)
    ensures
        spec_depth(seq![event]) == match event {
            Markup::Open { .. } => 1int,
            Markup::Text(_) => 0int,
            Markup::Close => -1int,
        },
        !(event is Close) ==> spec_writable(seq![event]),
{
    let one = seq![event];
    assert(one.drop_last() =~= Seq::<Markup>::empty());
    assert(one.last() == event);
    assert(spec_depth(Seq::<Markup>::empty()) == 0);
    assert(spec_depth(one) == spec_depth(one.drop_last()) + match event {
        Markup::Open { .. } => 1int,
        Markup::Text(_) => 0int,
        Markup::Close => -1int,
    });
    if !(event is Close) {
        assert forall|n: int| 0 <= n <= one.len() implies spec_depth(#[trigger] one.take(n))
            >= 0 by {
            if n == 0 {
                assert(one.take(0) =~= Seq::<Markup>::empty());
            } else {
                assert(one.take(1) =~= one);
            }
        }
    }
}

/// An element around a piece that stands on its own stands on its own.
pub proof fn lemma_closed_wrapped(open: Markup, inner: Seq<Markup>)
    requires
        open is Open,
        spec_closed(inner),
    ensures
        spec_closed(seq![open] + inner + seq![Markup::Close]),
{
    lemma_single(open);
    lemma_single(Markup::Close);
    lemma_writable_append(seq![open], inner);
    let body = seq![open] + inner;
    let all = body + seq![Markup::Close];
    lemma_depth_append(body, seq![Markup::Close]);
    assert forall|n: int| 0 <= n <= all.len() implies spec_depth(#[trigger] all.take(n)) >= 0 by {
        if n <= body.len() {
            assert(all.take(n) =~= body.take(n));
        } else {
            assert(all.take(n) =~= all);
        }
    }
}

/// The event writer of `xml-rs`.
#[verifier::external_type_specification]
#[verifier::external_body]
#[verifier::reject_recursive_types(W)]
pub struct ExEventWriter<W>(xml::writer::EventWriter<W>);

/// The error of the event writer of `xml-rs`.
#[verifier::external_type_specification]
#[verifier::external_body]
pub struct ExEmitterError(xml::writer::Error);

/// The events that a writer has taken so far, in order.
pub uninterp spec fn xml_emitted(writer: xml::writer::EventWriter<Vec<u8>>) -> Seq<Markup>;

/// Whether a writer was made to indent its output.
pub uninterp spec fn xml_indenting(writer: xml::writer::EventWriter<Vec<u8>>) -> bool;

/// The bytes of the document that an event writer of `xml-rs` with default
/// settings, indenting or not, produces from a sequence of events: the XML
/// declaration, then the elements with their text escaped.
pub uninterp spec fn xml_document(indent: bool, events: Seq<Markup>) -> Seq<u8>;

/// `EmitterConfig::new`, `perform_indent` and `create_writer` over an empty
/// byte vector: a writer that has taken no event yet.
#[verifier::external_body]
fn xml_writer(indent: bool) -> (writer: xml::writer::EventWriter<Vec<u8>>)
    ensures
        xml_emitted(writer) == Seq::<Markup>::empty(),
        xml_indenting(writer) == indent,
{
    xml::writer::EmitterConfig::new().perform_indent(indent).create_writer(Vec::new())
}

/// `EventWriter::write` with `XmlEvent::start_element` and one `attr` for each
/// attribute. Into a byte vector this cannot fail: the writer has taken the
/// opening of the element.
#[verifier::external_body]
fn xml_open(
    writer: &mut xml::writer::EventWriter<Vec<u8>>,
    name: &str,
    attributes: &Vec<(String, String)>,
) -> (outcome: Result<(), xml::writer::Error>)
    ensures
        outcome is Ok,
        xml_indenting(*final(writer)) == xml_indenting(*old(writer)),
        xml_emitted(*final(writer)) == xml_emitted(*old(writer)).push(
            Markup::Open { name: name@, attributes: spec_attributes(attributes@) },
        ),
{
    let mut start = xml::writer::XmlEvent::start_element(name);
    for (key, value) in attributes.iter() {
        start = start.attr(key.as_str(), value.as_str());
    }
    writer.write(start)
}

/// `EventWriter::write` with `XmlEvent::characters`. Into a byte vector this
/// cannot fail: the writer has taken the text.
#[verifier::external_body]
fn xml_text(writer: &mut xml::writer::EventWriter<Vec<u8>>, text: &str) -> (outcome: Result<
    (),
    xml::writer::Error,
>)
    ensures
        outcome is Ok,
        xml_indenting(*final(writer)) == xml_indenting(*old(writer)),
        xml_emitted(*final(writer)) == xml_emitted(*old(writer)).push(Markup::Text(text@)),
{
    writer.write(xml::writer::XmlEvent::characters(text))
}

/// `EventWriter::write` with `XmlEvent::end_element`, which closes the element
/// that was opened last and is still open. Into a byte vector this fails on
/// one thing only: that no element is open; the writer then stays as it was.
/// Otherwise it has taken the end of the element.
#[verifier::external_body]
fn xml_close(writer: &mut xml::writer::EventWriter<Vec<u8>>) -> (outcome: Result<
    (),
    xml::writer::Error,
>)
    ensures
        xml_indenting(*final(writer)) == xml_indenting(*old(writer)),
        outcome is Err <==> spec_depth(xml_emitted(*old(writer))) <= 0,
        outcome is Ok ==> xml_emitted(*final(writer)) == xml_emitted(*old(writer)).push(
            Markup::Close,
        ),
        outcome is Err ==> xml_emitted(*final(writer)) == xml_emitted(*old(writer)),
{
    writer.write(xml::writer::XmlEvent::end_element())
}

/// `EventWriter::into_inner`: the bytes written for the events taken.
#[verifier::external_body]
fn xml_finish(writer: xml::writer::EventWriter<Vec<u8>>) -> (bytes: Vec<u8>)
    ensures
        bytes@ == xml_document(xml_indenting(writer), xml_emitted(writer)),
{
    writer.into_inner()
}

/// Why a sequence of events could not be rendered.
#[derive(Clone, Copy, Debug, PartialEq, Eq, Structural)]
pub enum MarkupError {
    /// An event closes an element where none is open.
    CloseWithoutOpen,
}

/// Taking the last event off a prefix gives the prefix before it.
proof fn lemma_take_step(events: Seq<Markup>, n: int)
    requires
        0 <= n < events.len(),
    ensures
        events.take(n + 1).drop_last() == events.take(n),
        events.take(n + 1).last() == events[n],
        events.take(n + 1) == events.take(n).push(events[n]),
{
    assert(events.take(n + 1).drop_last() =~= events.take(n));
    assert(events.take(n + 1) =~= events.take(n).push(events[n]));
}

/// Renders the events as an XML document, indented by two spaces a level if
/// `indent` is set. The events are written in order; rendering fails exactly
/// when one of them closes an element where none is open.
pub fn render(events: &Vec<MarkupEvent>, indent: bool) -> (outcome: Result<Vec<u8>, MarkupError>)
    ensures
        match outcome {
            Ok(bytes) => spec_writable(spec_markup(events@)) && bytes@ == xml_document(
                indent,
                spec_markup(events@),
            ),
            Err(e) => !spec_writable(spec_markup(events@)) && e == MarkupError::CloseWithoutOpen,
        },
{
    let ghost all = spec_markup(events@);
    let mut writer = xml_writer(indent);
    let mut i: usize = 0;
    assert(all.take(0) =~= Seq::<Markup>::empty());
    while i < events.len()
        invariant
            i <= events.len(),
            all == spec_markup(events@),
            xml_indenting(writer) == indent,
            xml_emitted(writer) == all.take(i as int),
            forall|n: int| 0 <= n <= i ==> spec_depth(#[trigger] all.take(n)) >= 0,
        decreases events.len() - i,
    {
        proof {
            lemma_take_step(all, i as int);
        }
        let outcome = match &events[i] {
            MarkupEvent::Open { name, attributes } => xml_open(
                &mut writer,
                name.as_str(),
                attributes,
            ),
            MarkupEvent::Text(text) => xml_text(&mut writer, text.as_str()),
            MarkupEvent::Close => xml_close(&mut writer),
        };
        match outcome {
            Ok(()) => {},
            Err(_) => {
                assert(spec_depth(all.take(i + 1)) < 0);
                return Err(MarkupError::CloseWithoutOpen);
            },
        }
        i += 1;
        assert forall|n: int| 0 <= n <= i implies spec_depth(#[trigger] all.take(n)) >= 0 by {
            if n == i {
                assert(spec_depth(all.take(i as int)) >= 0);
            }
        }
    }
    assert(all.take(events.len() as int) =~= all);
    Ok(xml_finish(writer))
}

} // verus!
