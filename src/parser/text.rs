//! The text leaf consumer, the consumer of elements without children, and
//! the extension skipper.
use crate::error::{ElementKind, ParseError};
use crate::event::{trim, trimmed, Event, EventCursor};
use vstd::prelude::*;

verus! {

/// The view of a result, with the error kept as it is.
pub open spec fn result_view<T: View>(r: Result<T, ParseError>) -> Result<T::V, ParseError> {
    match r {
        Ok(v) => Ok(v@),
        Err(e) => Err(e),
    }
}

/// Reading a text leaf from event `i` on, with `acc` the character data seen
/// so far: the result, and the position just past what was read.
pub open spec fn text_from(ev: Seq<Event>, i: nat, acc: Seq<char>) -> (Result<Seq<char>, ParseError>, nat)
    decreases ev.len() - i,
{
    if i >= ev.len() {
        (Err(ParseError::UnterminatedElement(ElementKind::Text)), i)
    } else {
        match ev[i as int] {
            Event::StartElement(name, _) => (
                Err(ParseError::InvalidChildElement(name, ElementKind::Text)),
                i + 1,
            ),
            Event::EndElement(_) => (Ok(trim(acc)), i + 1),
            Event::Characters(t) => text_from(ev, i + 1, acc + t@),
            Event::Failure(m) => (Err(ParseError::TokenizationFailure(m)), i + 1),
            Event::Ignorable => text_from(ev, i + 1, acc),
        }
    }
}

/// Skipping the rest of an `extensions` subtree from event `i` on, with
/// `depth` elements still open: the result, and the position just past the
/// subtree.
pub open spec fn skip_from(ev: Seq<Event>, i: nat, depth: nat) -> (Result<(), ParseError>, nat)
    decreases ev.len() - i,
{
    if i >= ev.len() {
        (Err(ParseError::UnterminatedElement(ElementKind::Extensions)), i)
    } else {
        match ev[i as int] {
            Event::StartElement(_, _) => skip_from(ev, i + 1, depth + 1),
            Event::EndElement(_) => if depth <= 1 {
                (Ok(()), i + 1)
            } else {
                skip_from(ev, i + 1, (depth - 1) as nat)
            },
            Event::Failure(m) => (Err(ParseError::TokenizationFailure(m)), i + 1),
            _ => skip_from(ev, i + 1, depth),
        }
    }
}

/// Reading the rest of an element of kind `kind` that holds no child element
/// (its content is in its attributes) from event `i` on: the result, and the
/// position just past its end-tag.
pub open spec fn empty_from(ev: Seq<Event>, i: nat, kind: ElementKind) -> (Result<(), ParseError>, nat)
    decreases ev.len() - i,
{
    if i >= ev.len() {
        (Err(ParseError::UnterminatedElement(kind)), i)
    } else {
        match ev[i as int] {
            Event::StartElement(name, _) => (Err(ParseError::InvalidChildElement(name, kind)), i + 1),
            Event::EndElement(_) => (Ok(()), i + 1),
            Event::Failure(m) => (Err(ParseError::TokenizationFailure(m)), i + 1),
            _ => empty_from(ev, i + 1, kind),
        }
    }
}

/// Reading an element without children never moves back, nor past the end of
/// the events.
pub proof fn lemma_empty_bounds(ev: Seq<Event>, i: nat, kind: ElementKind)
    ensures
        i <= empty_from(ev, i, kind).1,
        i <= ev.len() ==> empty_from(ev, i, kind).1 <= ev.len(),
    decreases ev.len() - i,
{
    if i < ev.len() {
        match ev[i as int] {
            Event::StartElement(_, _) => {},
            Event::EndElement(_) => {},
            Event::Failure(_) => {},
            _ => lemma_empty_bounds(ev, i + 1, kind),
        }
    }
}

/// Reading a text leaf never moves back, nor past the end of the events.
pub proof fn lemma_text_bounds(ev: Seq<Event>, i: nat, acc: Seq<char>)
    ensures
        i <= text_from(ev, i, acc).1,
        i <= ev.len() ==> text_from(ev, i, acc).1 <= ev.len(),
    decreases ev.len() - i,
{
    if i < ev.len() {
        match ev[i as int] {
            Event::Characters(t) => lemma_text_bounds(ev, i + 1, acc + t@),
            Event::Ignorable => lemma_text_bounds(ev, i + 1, acc),
            _ => {},
        }
    }
}

/// Skipping never moves back, nor past the end of the events.
pub proof fn lemma_skip_bounds(ev: Seq<Event>, i: nat, depth: nat)
    ensures
        i <= skip_from(ev, i, depth).1,
        i <= ev.len() ==> skip_from(ev, i, depth).1 <= ev.len(),
    decreases ev.len() - i,
{
    if i < ev.len() {
        match ev[i as int] {
            Event::StartElement(_, _) => lemma_skip_bounds(ev, i + 1, depth + 1),
            Event::EndElement(_) => if depth > 1 {
                lemma_skip_bounds(ev, i + 1, (depth - 1) as nat)
            },
            Event::Failure(_) => {},
            _ => lemma_skip_bounds(ev, i + 1, depth),
        }
    }
}

/// Consumes a text leaf whose start-tag was just read: concatenates its
/// character data up to its end-tag and trims it.
pub fn consume(c: &mut EventCursor) -> (r: Result<String, ParseError>)
    requires
        old(c).wf(),
    ensures
        final(c).wf(),
        final(c).events@ == old(c).events@,
        (result_view(r), final(c).pos as nat) == text_from(
            old(c).events@,
            old(c).pos as nat,
            Seq::empty(),
        ),
{
    let ghost ev = c.events@;
    let ghost start = c.pos as nat;
    let mut acc = String::new();
    while c.pos < c.events.len()
        invariant
            c.events@ == ev,
            ev == old(c).events@,
            start == old(c).pos,
            c.wf(),
            text_from(ev, c.pos as nat, acc@) == text_from(ev, start, Seq::empty()),
        decreases ev.len() - c.pos,
    {
        let i = c.pos;
        match &c.events[i] {
            Event::StartElement(n, _) => {
                let name = n.clone();
                c.pos = i + 1;
                return Err(ParseError::InvalidChildElement(name, ElementKind::Text));
            },
            Event::EndElement(_) => {
                c.pos = i + 1;
                return Ok(trimmed(&acc));
            },
            Event::Characters(t) => {
                acc.append(t.as_str());
                c.pos = i + 1;
            },
            Event::Failure(m) => {
                let msg = m.clone();
                c.pos = i + 1;
                return Err(ParseError::TokenizationFailure(msg));
            },
            Event::Ignorable => {
                c.pos = i + 1;
            },
        }
    }
    Err(ParseError::UnterminatedElement(ElementKind::Text))
}

/// Consumes the rest of an element of kind `kind` whose start-tag was just
/// read and which holds no child element.
pub fn consume_empty(c: &mut EventCursor, kind: ElementKind) -> (r: Result<(), ParseError>)
    requires
        old(c).wf(),
    ensures
        final(c).wf(),
        final(c).events@ == old(c).events@,
        (r, final(c).pos as nat) == empty_from(old(c).events@, old(c).pos as nat, kind),
{
    let ghost ev = c.events@;
    let ghost start = c.pos as nat;
    while c.pos < c.events.len()
        invariant
            c.events@ == ev,
            ev == old(c).events@,
            start == old(c).pos,
            c.wf(),
            empty_from(ev, c.pos as nat, kind) == empty_from(ev, start, kind),
        decreases ev.len() - c.pos,
    {
        let i = c.pos;
        match &c.events[i] {
            Event::StartElement(n, _) => {
                let name = n.clone();
                c.pos = i + 1;
                return Err(ParseError::InvalidChildElement(name, kind));
            },
            Event::EndElement(_) => {
                c.pos = i + 1;
                return Ok(());
            },
            Event::Failure(m) => {
                let msg = m.clone();
                c.pos = i + 1;
                return Err(ParseError::TokenizationFailure(msg));
            },
            _ => {
                c.pos = i + 1;
            },
        }
    }
    Err(ParseError::UnterminatedElement(kind))
}

/// Consumes the rest of an `extensions` subtree whose start-tag was just
/// read, whatever it holds and however deep it nests.
pub fn skip_extensions(c: &mut EventCursor) -> (r: Result<(), ParseError>)
    requires
        old(c).wf(),
        1 <= old(c).pos,
    ensures
        final(c).wf(),
        final(c).events@ == old(c).events@,
        (r, final(c).pos as nat) == skip_from(old(c).events@, old(c).pos as nat, 1),
{
    let ghost ev = c.events@;
    let ghost start = c.pos as nat;
    let mut depth: usize = 1;
    while c.pos < c.events.len()
        invariant
            c.events@ == ev,
            ev == old(c).events@,
            start == old(c).pos,
            c.wf(),
            1 <= depth <= c.pos,
            skip_from(ev, c.pos as nat, depth as nat) == skip_from(ev, start, 1),
        decreases ev.len() - c.pos,
    {
        let i = c.pos;
        match &c.events[i] {
            Event::StartElement(_, _) => {
                depth = depth + 1;
                c.pos = i + 1;
            },
            Event::EndElement(_) => {
                c.pos = i + 1;
                if depth <= 1 {
                    return Ok(());
                }
                depth = depth - 1;
            },
            Event::Failure(m) => {
                let msg = m.clone();
                c.pos = i + 1;
                return Err(ParseError::TokenizationFailure(msg));
            },
            _ => {
                c.pos = i + 1;
            },
        }
    }
    Err(ParseError::UnterminatedElement(ElementKind::Extensions))
}

} // verus!
