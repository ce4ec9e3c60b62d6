use vstd::prelude::*;
use crate::constraints::ValidationError;

verus! {

/// Why a traversal stopped without a result document.
#[derive(Clone, Copy, PartialEq, Eq, Debug)]
pub enum PromptError {
    /// The answer channel failed or closed.
    ChannelClosed,
    /// An answer arrived whose shape does not fit the question asked.
    UnexpectedAnswer,
}

/// One raw answer from the operator, as the outside asking facility
/// reports it.
#[derive(Clone, Debug)]
pub enum Event {
    /// A line of free text (possibly empty).
    Text(String),
    /// A yes/no answer, also used for confirmations.
    YesNo(bool),
    /// A single-selection answer: the picked index, or nothing when an
    /// optional menu was dismissed.
    Pick(Option<usize>),
    /// A multi-selection answer: the picked indices, or nothing when the
    /// menu was cancelled outright.
    PickMany(Option<Vec<usize>>),
    /// The channel reported a failure.
    Closed,
}

/// Whether two events carry the same answer: equal except that a list of
/// picked indices is compared by its contents.
pub open spec fn event_like(a: Event, b: Event) -> bool {
    match (a, b) {
        (Event::Text(x), Event::Text(y)) => x == y,
        (Event::YesNo(x), Event::YesNo(y)) => x == y,
        (Event::Pick(x), Event::Pick(y)) => x == y,
        (Event::PickMany(x), Event::PickMany(y)) => match (x, y) {
            (Some(xs), Some(ys)) => xs@ == ys@,
            (None, None) => true,
            _ => false,
        },
        (Event::Closed, Event::Closed) => true,
        _ => false,
    }
}

/// The queue of answers a traversal consumes, front to back.
pub struct Script {
    events: Vec<Event>,
    next: usize,
}

fn clone_indices(v: &Vec<usize>) -> (r: Vec<usize>)
    ensures
        r@ == v@,
{
    let mut out: Vec<usize> = Vec::new();
    let mut i: usize = 0;
    while i < v.len()
        invariant
            i <= v.len(),
            out@ == v@.subrange(0, i as int),
        decreases v.len() - i,
    {
        out.push(v[i]);
        assert(out@ =~= v@.subrange(0, i + 1));
        i += 1;
    }
    assert(out@ =~= v@);
    out
}

impl Script {
    /// The answers not yet consumed.
    pub closed spec fn remaining(self) -> Seq<Event> {
        if self.next <= self.events@.len() {
            self.events@.skip(self.next as int)
        } else {
            Seq::empty()
        }
    }

    pub fn new(events: Vec<Event>) -> (r: Script)
        ensures
            r.remaining() == events@,
    {
        let r = Script { events, next: 0 };
        proof {
            assert(r.remaining() =~= r.events@);
        }
        r
    }

    /// How many answers are not yet consumed.
    pub fn unread(&self) -> (n: usize)
        ensures
            n == self.remaining().len(),
    {
        if self.next <= self.events.len() {
            self.events.len() - self.next
        } else {
            0
        }
    }

    /// Takes the front answer, or reports that the script is exhausted.
    pub fn take(&mut self) -> (r: Option<Event>)
        ensures
            old(self).remaining().len() == 0 ==> r is None
                && final(self).remaining() == old(self).remaining(),
            old(self).remaining().len() > 0 ==> (match r {
                Some(ev) => event_like(ev, old(self).remaining()[0])
                    && final(self).remaining() == old(self).remaining().drop_first(),
                None => false,
            }),
    {
        if self.next >= self.events.len() {
            return None;
        }
        let ev = &self.events[self.next];
        let copy = match ev {
            Event::Text(s) => Event::Text(s.clone()),
            Event::YesNo(b) => Event::YesNo(*b),
            Event::Pick(p) => Event::Pick(*p),
            Event::PickMany(p) => Event::PickMany(
                match p {
                    Some(xs) => Some(clone_indices(xs)),
                    None => None,
                },
            ),
            Event::Closed => Event::Closed,
        };
        assert(event_like(copy, self.events@[self.next as int]));
        self.next = self.next + 1;
        proof {
            assert(final(self).remaining() =~= old(self).remaining().drop_first());
        }
        Some(copy)
    }
}

/// The context lines shown above a question: the field's announced title
/// (absent in quiet mode, or when a parent object already announced its
/// own) and its free-form description (absent in quiet mode).
pub struct Header {
    pub title: Option<String>,
    pub description: String,
}

impl Header {
    pub open spec fn title_model(self) -> Option<Seq<char>> {
        match self.title {
            Some(t) => Some(t@),
            None => None,
        }
    }

    pub fn duplicate(&self) -> (r: Header)
        ensures
            r.title_model() == self.title_model(),
            r.description@ == self.description@,
    {
        Header {
            title: match &self.title {
                Some(t) => Some(t.clone()),
                None => None,
            },
            description: self.description.clone(),
        }
    }
}

/// What kind of interaction a pending question needs.
pub enum ReqKind {
    /// A line of free text.
    Line,
    /// A yes/no question.
    YesNo,
    /// A single-selection menu over the given option lines; `optional`
    /// says whether the menu may be dismissed without a choice.
    Pick { options: Vec<String>, optional: bool },
    /// A multi-selection menu over the given option lines.
    PickMany { options: Vec<String> },
    /// A confirmation that a whole field should be abandoned.
    Confirm,
}

/// The question the traversal is blocked on when the script ran dry:
/// everything an interactive front end needs in order to ask the operator
/// for exactly one more answer.
pub struct Request {
    pub header: Header,
    pub label: String,
    pub kind: ReqKind,
    /// Why the previous answer to this same question was rejected, if the
    /// question is being asked again.
    pub complaint: Option<ValidationError>,
}

/// The mathematical model of a request.
pub struct ReqModel {
    pub title: Option<Seq<char>>,
    pub description: Seq<char>,
    pub label: Seq<char>,
    pub kind: ReqKindModel,
    pub complaint: Option<ValidationError>,
}

pub enum ReqKindModel {
    Line,
    YesNo,
    Pick { options: Seq<Seq<char>>, optional: bool },
    PickMany { options: Seq<Seq<char>> },
    Confirm,
}

impl ReqKind {
    pub open spec fn model(self) -> ReqKindModel {
        match self {
            ReqKind::Line => ReqKindModel::Line,
            ReqKind::YesNo => ReqKindModel::YesNo,
            ReqKind::Pick { options, optional } => ReqKindModel::Pick {
                options: Seq::new(options@.len(), |i: int| if 0 <= i < options@.len() {
                    options@[i]@
                } else {
                    Seq::empty()
                }),
                optional,
            },
            ReqKind::PickMany { options } => ReqKindModel::PickMany {
                options: Seq::new(options@.len(), |i: int| if 0 <= i < options@.len() {
                    options@[i]@
                } else {
                    Seq::empty()
                }),
            },
            ReqKind::Confirm => ReqKindModel::Confirm,
        }
    }
}

impl Request {
    pub open spec fn model(self) -> ReqModel {
        ReqModel {
            title: self.header.title_model(),
            description: self.header.description@,
            label: self.label@,
            kind: self.kind.model(),
            complaint: self.complaint,
        }
    }
}

/// How one resolution step ended: with a resolved thing, blocked on a
/// question the script could not answer, or aborted by a channel failure.
pub enum Outcome<T> {
    Done(T),
    Need(Request),
    Fail(PromptError),
}

/// The model of an outcome.
pub enum Step<V> {
    Done(V),
    Need(ReqModel),
    Fail(PromptError),
}

} // verus!
