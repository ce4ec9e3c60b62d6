use vstd::prelude::*;
use crate::constraints::{
    CollectionConstraints, Conditions, IfCondition, IntConstraints, SelectConstraints,
    StringConstraints, ValidationError,
};
use crate::document::Document;
use crate::script::{
    Event, Header, Outcome, PromptError, ReqKind, ReqKindModel, ReqModel, Request, Script, Step,
};
use crate::value::{display_model, parse_model, value_eq, TraitIntBounds, ValModel, Value};

verus! {

broadcast use vstd::std_specs::vec::group_vec_axioms, vstd::seq::axiom_seq_index_decreases;

/// The human title form of a field key, used as its label when the schema
/// names none. Depends on the characters alone.
pub uninterp spec fn title_case_of(key: Seq<char>) -> Seq<char>;

/// Relies on inflector's `to_title_case`: a pure rendering of the input text.
#[verifier::external_body]
pub(crate) fn to_title_case(s: &str) -> (r: String)
    ensures
        r@ == title_case_of(s@),
{
    inflector::cases::titlecase::to_title_case(s)
}

/// Restricts an event sequence to one no longer than `before`; every
/// traversal step hands back a suffix of what it was given, so this is
/// the identity wherever it is used.
pub open spec fn keep(after: Seq<Event>, before: Seq<Event>) -> Seq<Event> {
    if after.len() <= before.len() {
        after
    } else {
        before
    }
}

/// The menu lines for a list of selectable items.
pub open spec fn options_model(items: Seq<Value>) -> Seq<Seq<char>> {
    Seq::new(items.len(), |i: int| display_model(items[i].model()))
}

/// The models of a list of values.
pub open spec fn vals_model(items: Seq<Value>) -> Seq<ValModel> {
    Seq::new(items.len(), |i: int| items[i].model())
}

/// The models of a list of keyed values.
pub open spec fn pairs_model(entries: Seq<(String, Value)>) -> Seq<(Seq<char>, ValModel)> {
    Seq::new(entries.len(), |i: int| (entries[i].0@, entries[i].1.model()))
}

pub open spec fn mk_req(
    title: Option<Seq<char>>,
    descr: Seq<char>,
    label: Seq<char>,
    kind: ReqKindModel,
    complaint: Option<ValidationError>,
) -> ReqModel {
    ReqModel { title, description: descr, label, kind, complaint }
}

/// Asking for a line of constrained text: each unacceptable answer is
/// consumed and the question is put again carrying the objection; an empty
/// answer is a skip when skipping is allowed, and otherwise judged like any
/// other text.
pub open spec fn interp_ask_text(
    sc: StringConstraints,
    skippable: bool,
    title: Option<Seq<char>>,
    descr: Seq<char>,
    label: Seq<char>,
    complaint: Option<ValidationError>,
    evs: Seq<Event>,
) -> (Step<Option<Seq<char>>>, Seq<Event>)
    decreases evs.len(),
{
    if evs.len() == 0 {
        (Step::Need(mk_req(title, descr, label, ReqKindModel::Line, complaint)), evs)
    } else {
        match evs[0] {
            Event::Text(s) => if skippable && s@.len() == 0 {
                (Step::Done(None), evs.drop_first())
            } else {
                match sc.check(s@) {
                    Ok(()) => (Step::Done(Some(s@)), evs.drop_first()),
                    Err(e) => interp_ask_text(
                        sc, skippable, title, descr, label, Some(e), evs.drop_first(),
                    ),
                }
            },
            Event::Closed => (Step::Fail(PromptError::ChannelClosed), evs.drop_first()),
            _ => (Step::Fail(PromptError::UnexpectedAnswer), evs.drop_first()),
        }
    }
}

/// Asking for a number of one machine-integer kind: text that does not
/// denote a representable value, or a value outside the field's bounds, is
/// consumed and the question is put again; an empty answer is a skip when
/// skipping is allowed.
pub open spec fn interp_ask_number<T: TraitIntBounds>(
    c: IntConstraints<T>,
    skippable: bool,
    title: Option<Seq<char>>,
    descr: Seq<char>,
    label: Seq<char>,
    complaint: Option<ValidationError>,
    evs: Seq<Event>,
) -> (Step<Option<int>>, Seq<Event>)
    decreases evs.len(),
{
    if evs.len() == 0 {
        (Step::Need(mk_req(title, descr, label, ReqKindModel::Line, complaint)), evs)
    } else {
        match evs[0] {
            Event::Text(s) => if skippable && s@.len() == 0 {
                (Step::Done(None), evs.drop_first())
            } else {
                match parse_model(s@, T::lo(), T::hi()) {
                    None => interp_ask_number::<T>(
                        c, skippable, title, descr, label,
                        Some(ValidationError::NotNumeric), evs.drop_first(),
                    ),
                    Some(v) => match c.check(v) {
                        Ok(()) => (Step::Done(Some(v)), evs.drop_first()),
                        Err(e) => interp_ask_number::<T>(
                            c, skippable, title, descr, label, Some(e), evs.drop_first(),
                        ),
                    },
                }
            },
            Event::Closed => (Step::Fail(PromptError::ChannelClosed), evs.drop_first()),
            _ => (Step::Fail(PromptError::UnexpectedAnswer), evs.drop_first()),
        }
    }
}

/// Asking yes or no: the one answer decides; no constraint applies.
pub open spec fn interp_ask_bool(
    title: Option<Seq<char>>,
    descr: Seq<char>,
    label: Seq<char>,
    evs: Seq<Event>,
) -> (Step<bool>, Seq<Event>) {
    if evs.len() == 0 {
        (Step::Need(mk_req(title, descr, label, ReqKindModel::YesNo, None)), evs)
    } else {
        match evs[0] {
            Event::YesNo(b) => (Step::Done(b), evs.drop_first()),
            Event::Closed => (Step::Fail(PromptError::ChannelClosed), evs.drop_first()),
            _ => (Step::Fail(PromptError::UnexpectedAnswer), evs.drop_first()),
        }
    }
}

/// Asking to confirm that a whole field be abandoned.
pub open spec fn interp_ask_confirm(
    title: Option<Seq<char>>,
    descr: Seq<char>,
    label: Seq<char>,
    complaint: Option<ValidationError>,
    evs: Seq<Event>,
) -> (Step<bool>, Seq<Event>) {
    if evs.len() == 0 {
        (Step::Need(mk_req(title, descr, label, ReqKindModel::Confirm, complaint)), evs)
    } else {
        match evs[0] {
            Event::YesNo(b) => (Step::Done(b), evs.drop_first()),
            Event::Closed => (Step::Fail(PromptError::ChannelClosed), evs.drop_first()),
            _ => (Step::Fail(PromptError::UnexpectedAnswer), evs.drop_first()),
        }
    }
}

/// Asking for one choice from a menu: an optional menu may be dismissed
/// without a choice; a mandatory one must yield an index.
pub open spec fn interp_ask_single(
    options: Seq<Seq<char>>,
    optional: bool,
    title: Option<Seq<char>>,
    descr: Seq<char>,
    label: Seq<char>,
    evs: Seq<Event>,
) -> (Step<Option<usize>>, Seq<Event>) {
    if evs.len() == 0 {
        (
            Step::Need(mk_req(
                title, descr, label, ReqKindModel::Pick { options, optional }, None,
            )),
            evs,
        )
    } else {
        match evs[0] {
            Event::Pick(p) => match p {
                Some(i) => (Step::Done(Some(i)), evs.drop_first()),
                None => if optional {
                    (Step::Done(None), evs.drop_first())
                } else {
                    (Step::Fail(PromptError::UnexpectedAnswer), evs.drop_first())
                },
            },
            Event::Closed => (Step::Fail(PromptError::ChannelClosed), evs.drop_first()),
            _ => (Step::Fail(PromptError::UnexpectedAnswer), evs.drop_first()),
        }
    }
}

/// Asking for any number of choices from a menu: the menu may be cancelled
/// outright, or yield a (possibly empty) list of indices.
pub open spec fn interp_ask_multi(
    options: Seq<Seq<char>>,
    title: Option<Seq<char>>,
    descr: Seq<char>,
    label: Seq<char>,
    evs: Seq<Event>,
) -> (Step<Option<Seq<usize>>>, Seq<Event>) {
    if evs.len() == 0 {
        (
            Step::Need(mk_req(title, descr, label, ReqKindModel::PickMany { options }, None)),
            evs,
        )
    } else {
        match evs[0] {
            Event::PickMany(p) => match p {
                Some(xs) => (Step::Done(Some(xs@)), evs.drop_first()),
                None => (Step::Done(None), evs.drop_first()),
            },
            Event::Closed => (Step::Fail(PromptError::ChannelClosed), evs.drop_first()),
            _ => (Step::Fail(PromptError::UnexpectedAnswer), evs.drop_first()),
        }
    }
}

fn make_request(
    header: &Header,
    label: &String,
    kind: ReqKind,
    complaint: Option<ValidationError>,
) -> (r: Request)
    ensures
        r.model() == mk_req(
            header.title_model(), header.description@, label@, kind.model(), complaint,
        ),
{
    Request { header: header.duplicate(), label: label.clone(), kind, complaint }
}

fn ask_text(
    script: &mut Script,
    sc: &StringConstraints,
    skippable: bool,
    header: &Header,
    label: &String,
    objection: Option<ValidationError>,
) -> (r: Outcome<Option<String>>)
    ensures
        final(script).remaining().len() <= old(script).remaining().len(),
        ({
            let (st, evs2) = interp_ask_text(
                *sc, skippable, header.title_model(), header.description@, label@, objection,
                old(script).remaining(),
            );
            final(script).remaining() == evs2 && match (r, st) {
                (Outcome::Done(a), Step::Done(b)) => match (a, b) {
                    (Some(s), Some(m)) => s@ == m,
                    (None, None) => true,
                    _ => false,
                },
                (Outcome::Need(q), Step::Need(m)) => q.model() == m,
                (Outcome::Fail(e), Step::Fail(f)) => e == f,
                _ => false,
            }
        }),
{
    let ghost evs0 = old(script).remaining();
    let ghost obj0 = objection;
    let mut complaint: Option<ValidationError> = objection;
    loop
        invariant
            evs0 == old(script).remaining(),
            obj0 == objection,
            script.remaining().len() <= evs0.len(),
            interp_ask_text(
                *sc, skippable, header.title_model(), header.description@, label@, complaint,
                script.remaining(),
            ) == interp_ask_text(
                *sc, skippable, header.title_model(), header.description@, label@, obj0, evs0,
            ),
        decreases script.remaining().len(),
    {
        match script.take() {
            None => {
                return Outcome::Need(make_request(header, label, ReqKind::Line, complaint));
            }
            Some(Event::Text(s)) => {
                if skippable && s.as_str().unicode_len() == 0 {
                    return Outcome::Done(None);
                }
                match sc.validate(&s) {
                    Ok(()) => {
                        return Outcome::Done(Some(s));
                    }
                    Err(e) => {
                        complaint = Some(e);
                    }
                }
            }
            Some(Event::Closed) => {
                return Outcome::Fail(PromptError::ChannelClosed);
            }
            Some(_) => {
                return Outcome::Fail(PromptError::UnexpectedAnswer);
            }
        }
    }
}

fn ask_number<T: TraitIntBounds>(
    script: &mut Script,
    c: &IntConstraints<T>,
    skippable: bool,
    header: &Header,
    label: &String,
    objection: Option<ValidationError>,
) -> (r: Outcome<Option<i128>>)
    ensures
        final(script).remaining().len() <= old(script).remaining().len(),
        ({
            let (st, evs2) = interp_ask_number::<T>(
                *c, skippable, header.title_model(), header.description@, label@, objection,
                old(script).remaining(),
            );
            final(script).remaining() == evs2 && match (r, st) {
                (Outcome::Done(a), Step::Done(b)) => match (a, b) {
                    (Some(w), Some(v)) => w as int == v,
                    (None, None) => true,
                    _ => false,
                },
                (Outcome::Need(q), Step::Need(m)) => q.model() == m,
                (Outcome::Fail(e), Step::Fail(f)) => e == f,
                _ => false,
            }
        }),
{
    let ghost evs0 = old(script).remaining();
    let ghost obj0 = objection;
    let mut complaint: Option<ValidationError> = objection;
    loop
        invariant
            evs0 == old(script).remaining(),
            obj0 == objection,
            script.remaining().len() <= evs0.len(),
            interp_ask_number::<T>(
                *c, skippable, header.title_model(), header.description@, label@, complaint,
                script.remaining(),
            ) == interp_ask_number::<T>(
                *c, skippable, header.title_model(), header.description@, label@, obj0, evs0,
            ),
        decreases script.remaining().len(),
    {
        match script.take() {
            None => {
                return Outcome::Need(make_request(header, label, ReqKind::Line, complaint));
            }
            Some(Event::Text(s)) => {
                if skippable && s.as_str().unicode_len() == 0 {
                    return Outcome::Done(None);
                }
                proof {
                    T::bounds_ok();
                }
                let lo = T::min().to_wide();
                let hi = T::max().to_wide();
                match crate::value::parse_int_text(s.as_str(), lo, hi) {
                    None => {
                        complaint = Some(ValidationError::NotNumeric);
                    }
                    Some(w) => {
                        let typed = T::from_wide(w);
                        match c.validate(typed) {
                            Ok(()) => {
                                return Outcome::Done(Some(w));
                            }
                            Err(e) => {
                                complaint = Some(e);
                            }
                        }
                    }
                }
            }
            Some(Event::Closed) => {
                return Outcome::Fail(PromptError::ChannelClosed);
            }
            Some(_) => {
                return Outcome::Fail(PromptError::UnexpectedAnswer);
            }
        }
    }
}

fn ask_bool(script: &mut Script, header: &Header, label: &String) -> (r: Outcome<bool>)
    ensures
        final(script).remaining().len() <= old(script).remaining().len(),
        ({
            let (st, evs2) = interp_ask_bool(
                header.title_model(), header.description@, label@, old(script).remaining(),
            );
            final(script).remaining() == evs2 && match (r, st) {
                (Outcome::Done(a), Step::Done(b)) => a == b,
                (Outcome::Need(q), Step::Need(m)) => q.model() == m,
                (Outcome::Fail(e), Step::Fail(f)) => e == f,
                _ => false,
            }
        }),
{
    match script.take() {
        None => Outcome::Need(make_request(header, label, ReqKind::YesNo, None)),
        Some(Event::YesNo(b)) => Outcome::Done(b),
        Some(Event::Closed) => Outcome::Fail(PromptError::ChannelClosed),
        Some(_) => Outcome::Fail(PromptError::UnexpectedAnswer),
    }
}

fn ask_confirm(
    script: &mut Script,
    header: &Header,
    label: &String,
    complaint: Option<ValidationError>,
) -> (r: Outcome<bool>)
    ensures
        final(script).remaining().len() <= old(script).remaining().len(),
        ({
            let (st, evs2) = interp_ask_confirm(
                header.title_model(), header.description@, label@, complaint,
                old(script).remaining(),
            );
            final(script).remaining() == evs2 && match (r, st) {
                (Outcome::Done(a), Step::Done(b)) => a == b,
                (Outcome::Need(q), Step::Need(m)) => q.model() == m,
                (Outcome::Fail(e), Step::Fail(f)) => e == f,
                _ => false,
            }
        }),
{
    match script.take() {
        None => Outcome::Need(make_request(header, label, ReqKind::Confirm, complaint)),
        Some(Event::YesNo(b)) => Outcome::Done(b),
        Some(Event::Closed) => Outcome::Fail(PromptError::ChannelClosed),
        Some(_) => Outcome::Fail(PromptError::UnexpectedAnswer),
    }
}

fn display_items(items: &Vec<Value>) -> (r: Vec<String>)
    ensures
        r@.len() == items@.len(),
        forall|i: int| 0 <= i < r@.len() ==> #[trigger] r@[i]@ == display_model(
            items@[i].model(),
        ),
{
    let mut out: Vec<String> = Vec::new();
    let mut i: usize = 0;
    while i < items.len()
        invariant
            i <= items@.len(),
            out@.len() == i,
            forall|j: int| 0 <= j < i ==> #[trigger] out@[j]@ == display_model(
                items@[j].model(),
            ),
        decreases items@.len() - i,
    {
        out.push(crate::value::display_value(&items[i]));
        i += 1;
    }
    out
}

fn ask_single(
    script: &mut Script,
    options: Vec<String>,
    optional: bool,
    header: &Header,
    label: &String,
) -> (r: Outcome<Option<usize>>)
    ensures
        final(script).remaining().len() <= old(script).remaining().len(),
        ({
            let (st, evs2) = interp_ask_single(
                Seq::new(options@.len(), |i: int| options@[i]@), optional,
                header.title_model(), header.description@, label@, old(script).remaining(),
            );
            final(script).remaining() == evs2 && match (r, st) {
                (Outcome::Done(a), Step::Done(b)) => a == b,
                (Outcome::Need(q), Step::Need(m)) => q.model() == m,
                (Outcome::Fail(e), Step::Fail(f)) => e == f,
                _ => false,
            }
        }),
{
    match script.take() {
        None => {
            let ghost opts0 = options@;
            let req = make_request(header, label, ReqKind::Pick { options, optional }, None);
            proof {
                assert(req.model().kind matches ReqKindModel::Pick { options: o, .. }
                    && o =~= Seq::new(opts0.len(), |i: int| opts0[i]@));
            }
            Outcome::Need(req)
        }
        Some(Event::Pick(p)) => match p {
            Some(i) => Outcome::Done(Some(i)),
            None => if optional {
                Outcome::Done(None)
            } else {
                Outcome::Fail(PromptError::UnexpectedAnswer)
            },
        },
        Some(Event::Closed) => Outcome::Fail(PromptError::ChannelClosed),
        Some(_) => Outcome::Fail(PromptError::UnexpectedAnswer),
    }
}

fn ask_multi(
    script: &mut Script,
    options: Vec<String>,
    header: &Header,
    label: &String,
) -> (r: Outcome<Option<Vec<usize>>>)
    ensures
        final(script).remaining().len() <= old(script).remaining().len(),
        ({
            let (st, evs2) = interp_ask_multi(
                Seq::new(options@.len(), |i: int| options@[i]@),
                header.title_model(), header.description@, label@, old(script).remaining(),
            );
            final(script).remaining() == evs2 && match (r, st) {
                (Outcome::Done(a), Step::Done(b)) => match (a, b) {
                    (Some(xs), Some(m)) => xs@ == m,
                    (None, None) => true,
                    _ => false,
                },
                (Outcome::Need(q), Step::Need(m)) => q.model() == m,
                (Outcome::Fail(e), Step::Fail(f)) => e == f,
                _ => false,
            }
        }),
{
    match script.take() {
        None => {
            let ghost opts0 = options@;
            let req = make_request(header, label, ReqKind::PickMany { options }, None);
            proof {
                assert(req.model().kind matches ReqKindModel::PickMany { options: o }
                    && o =~= Seq::new(opts0.len(), |i: int| opts0[i]@));
            }
            Outcome::Need(req)
        }
        Some(Event::PickMany(p)) => match p {
            Some(xs) => Outcome::Done(Some(xs)),
            None => Outcome::Done(None),
        },
        Some(Event::Closed) => Outcome::Fail(PromptError::ChannelClosed),
        Some(_) => Outcome::Fail(PromptError::UnexpectedAnswer),
    }
}

/// A value kind that can be asked for as one item: it carries its own
/// constraint type, knows how one ask of it reads the script, and performs
/// that ask. The per-width numeric kinds all share one generic resolver.
pub trait PromptValue: Sized {
    type Constraints;

    /// How one ask reads the script: what it resolves to and what it leaves.
    spec fn interp_ask(
        c: Self::Constraints,
        skippable: bool,
        title: Option<Seq<char>>,
        descr: Seq<char>,
        label: Seq<char>,
        complaint: Option<ValidationError>,
        evs: Seq<Event>,
    ) -> (Step<Option<ValModel>>, Seq<Event>);

    fn prompt(
        script: &mut Script,
        c: &Self::Constraints,
        skippable: bool,
        header: &Header,
        label: &String,
        objection: Option<ValidationError>,
    ) -> (r: Outcome<Option<Value>>)
        ensures
            final(script).remaining().len() <= old(script).remaining().len(),
            ({
                let (st, evs2) = Self::interp_ask(
                    *c, skippable, header.title_model(), header.description@, label@, objection,
                    old(script).remaining(),
                );
                final(script).remaining() == evs2 && match (r, st) {
                    (Outcome::Done(a), Step::Done(b)) => match (a, b) {
                        (Some(v), Some(m)) => v.model() == m,
                        (None, None) => true,
                        _ => false,
                    },
                    (Outcome::Need(q), Step::Need(m)) => q.model() == m,
                    (Outcome::Fail(e), Step::Fail(f)) => e == f,
                    _ => false,
                }
            }),
    ;
}

/// Lifts a text ask to value level.
pub open spec fn text_step(
    p: (Step<Option<Seq<char>>>, Seq<Event>),
) -> (Step<Option<ValModel>>, Seq<Event>) {
    (
        match p.0 {
            Step::Done(o) => Step::Done(match o {
                Some(s) => Some(ValModel::Text(s)),
                None => None,
            }),
            Step::Need(q) => Step::Need(q),
            Step::Fail(e) => Step::Fail(e),
        },
        p.1,
    )
}

/// Lifts a numeric ask to value level.
pub open spec fn num_step(
    p: (Step<Option<int>>, Seq<Event>),
) -> (Step<Option<ValModel>>, Seq<Event>) {
    (
        match p.0 {
            Step::Done(o) => Step::Done(match o {
                Some(v) => Some(ValModel::Num(v)),
                None => None,
            }),
            Step::Need(q) => Step::Need(q),
            Step::Fail(e) => Step::Fail(e),
        },
        p.1,
    )
}

impl PromptValue for String {
    type Constraints = StringConstraints;

    open spec fn interp_ask(
        c: StringConstraints,
        skippable: bool,
        title: Option<Seq<char>>,
        descr: Seq<char>,
        label: Seq<char>,
        complaint: Option<ValidationError>,
        evs: Seq<Event>,
    ) -> (Step<Option<ValModel>>, Seq<Event>) {
        text_step(interp_ask_text(c, skippable, title, descr, label, complaint, evs))
    }

    fn prompt(
        script: &mut Script,
        c: &StringConstraints,
        skippable: bool,
        header: &Header,
        label: &String,
        objection: Option<ValidationError>,
    ) -> (r: Outcome<Option<Value>>) {
        match ask_text(script, c, skippable, header, label, objection) {
            Outcome::Done(Some(s)) => Outcome::Done(Some(Value::Text(s))),
            Outcome::Done(None) => Outcome::Done(None),
            Outcome::Need(q) => Outcome::Need(q),
            Outcome::Fail(e) => Outcome::Fail(e),
        }
    }
}

fn num_prompt<T: TraitIntBounds>(
    script: &mut Script,
    c: &IntConstraints<T>,
    skippable: bool,
    header: &Header,
    label: &String,
    objection: Option<ValidationError>,
) -> (r: Outcome<Option<Value>>)
    ensures
        final(script).remaining().len() <= old(script).remaining().len(),
        ({
            let (st, evs2) = num_step(interp_ask_number::<T>(
                *c, skippable, header.title_model(), header.description@, label@, objection,
                old(script).remaining(),
            ));
            final(script).remaining() == evs2 && match (r, st) {
                (Outcome::Done(a), Step::Done(b)) => match (a, b) {
                    (Some(v), Some(m)) => v.model() == m,
                    (None, None) => true,
                    _ => false,
                },
                (Outcome::Need(q), Step::Need(m)) => q.model() == m,
                (Outcome::Fail(e), Step::Fail(f)) => e == f,
                _ => false,
            }
        }),
{
    match ask_number::<T>(script, c, skippable, header, label, objection) {
        Outcome::Done(Some(w)) => Outcome::Done(Some(Value::Num(w))),
        Outcome::Done(None) => Outcome::Done(None),
        Outcome::Need(q) => Outcome::Need(q),
        Outcome::Fail(e) => Outcome::Fail(e),
    }
}

impl PromptValue for u64 {
    type Constraints = IntConstraints<u64>;

    open spec fn interp_ask(
        c: IntConstraints<u64>,
        skippable: bool,
        title: Option<Seq<char>>,
        descr: Seq<char>,
        label: Seq<char>,
        complaint: Option<ValidationError>,
        evs: Seq<Event>,
    ) -> (Step<Option<ValModel>>, Seq<Event>) {
        num_step(interp_ask_number::<u64>(c, skippable, title, descr, label, complaint, evs))
    }

    fn prompt(
        script: &mut Script,
        c: &IntConstraints<u64>,
        skippable: bool,
        header: &Header,
        label: &String,
        objection: Option<ValidationError>,
    ) -> (r: Outcome<Option<Value>>) {
        num_prompt::<u64>(script, c, skippable, header, label, objection)
    }
}

impl PromptValue for u32 {
    type Constraints = IntConstraints<u32>;

    open spec fn interp_ask(
        c: IntConstraints<u32>,
        skippable: bool,
        title: Option<Seq<char>>,
        descr: Seq<char>,
        label: Seq<char>,
        complaint: Option<ValidationError>,
        evs: Seq<Event>,
    ) -> (Step<Option<ValModel>>, Seq<Event>) {
        num_step(interp_ask_number::<u32>(c, skippable, title, descr, label, complaint, evs))
    }

    fn prompt(
        script: &mut Script,
        c: &IntConstraints<u32>,
        skippable: bool,
        header: &Header,
        label: &String,
        objection: Option<ValidationError>,
    ) -> (r: Outcome<Option<Value>>) {
        num_prompt::<u32>(script, c, skippable, header, label, objection)
    }
}

impl PromptValue for u16 {
    type Constraints = IntConstraints<u16>;

    open spec fn interp_ask(
        c: IntConstraints<u16>,
        skippable: bool,
        title: Option<Seq<char>>,
        descr: Seq<char>,
        label: Seq<char>,
        complaint: Option<ValidationError>,
        evs: Seq<Event>,
    ) -> (Step<Option<ValModel>>, Seq<Event>) {
        num_step(interp_ask_number::<u16>(c, skippable, title, descr, label, complaint, evs))
    }

    fn prompt(
        script: &mut Script,
        c: &IntConstraints<u16>,
        skippable: bool,
        header: &Header,
        label: &String,
        objection: Option<ValidationError>,
    ) -> (r: Outcome<Option<Value>>) {
        num_prompt::<u16>(script, c, skippable, header, label, objection)
    }
}

impl PromptValue for u8 {
    type Constraints = IntConstraints<u8>;

    open spec fn interp_ask(
        c: IntConstraints<u8>,
        skippable: bool,
        title: Option<Seq<char>>,
        descr: Seq<char>,
        label: Seq<char>,
        complaint: Option<ValidationError>,
        evs: Seq<Event>,
    ) -> (Step<Option<ValModel>>, Seq<Event>) {
        num_step(interp_ask_number::<u8>(c, skippable, title, descr, label, complaint, evs))
    }

    fn prompt(
        script: &mut Script,
        c: &IntConstraints<u8>,
        skippable: bool,
        header: &Header,
        label: &String,
        objection: Option<ValidationError>,
    ) -> (r: Outcome<Option<Value>>) {
        num_prompt::<u8>(script, c, skippable, header, label, objection)
    }
}

impl PromptValue for i64 {
    type Constraints = IntConstraints<i64>;

    open spec fn interp_ask(
        c: IntConstraints<i64>,
        skippable: bool,
        title: Option<Seq<char>>,
        descr: Seq<char>,
        label: Seq<char>,
        complaint: Option<ValidationError>,
        evs: Seq<Event>,
    ) -> (Step<Option<ValModel>>, Seq<Event>) {
        num_step(interp_ask_number::<i64>(c, skippable, title, descr, label, complaint, evs))
    }

    fn prompt(
        script: &mut Script,
        c: &IntConstraints<i64>,
        skippable: bool,
        header: &Header,
        label: &String,
        objection: Option<ValidationError>,
    ) -> (r: Outcome<Option<Value>>) {
        num_prompt::<i64>(script, c, skippable, header, label, objection)
    }
}

impl PromptValue for i32 {
    type Constraints = IntConstraints<i32>;

    open spec fn interp_ask(
        c: IntConstraints<i32>,
        skippable: bool,
        title: Option<Seq<char>>,
        descr: Seq<char>,
        label: Seq<char>,
        complaint: Option<ValidationError>,
        evs: Seq<Event>,
    ) -> (Step<Option<ValModel>>, Seq<Event>) {
        num_step(interp_ask_number::<i32>(c, skippable, title, descr, label, complaint, evs))
    }

    fn prompt(
        script: &mut Script,
        c: &IntConstraints<i32>,
        skippable: bool,
        header: &Header,
        label: &String,
        objection: Option<ValidationError>,
    ) -> (r: Outcome<Option<Value>>) {
        num_prompt::<i32>(script, c, skippable, header, label, objection)
    }
}

impl PromptValue for i16 {
    type Constraints = IntConstraints<i16>;

    open spec fn interp_ask(
        c: IntConstraints<i16>,
        skippable: bool,
        title: Option<Seq<char>>,
        descr: Seq<char>,
        label: Seq<char>,
        complaint: Option<ValidationError>,
        evs: Seq<Event>,
    ) -> (Step<Option<ValModel>>, Seq<Event>) {
        num_step(interp_ask_number::<i16>(c, skippable, title, descr, label, complaint, evs))
    }

    fn prompt(
        script: &mut Script,
        c: &IntConstraints<i16>,
        skippable: bool,
        header: &Header,
        label: &String,
        objection: Option<ValidationError>,
    ) -> (r: Outcome<Option<Value>>) {
        num_prompt::<i16>(script, c, skippable, header, label, objection)
    }
}

impl PromptValue for i8 {
    type Constraints = IntConstraints<i8>;

    open spec fn interp_ask(
        c: IntConstraints<i8>,
        skippable: bool,
        title: Option<Seq<char>>,
        descr: Seq<char>,
        label: Seq<char>,
        complaint: Option<ValidationError>,
        evs: Seq<Event>,
    ) -> (Step<Option<ValModel>>, Seq<Event>) {
        num_step(interp_ask_number::<i8>(c, skippable, title, descr, label, complaint, evs))
    }

    fn prompt(
        script: &mut Script,
        c: &IntConstraints<i8>,
        skippable: bool,
        header: &Header,
        label: &String,
        objection: Option<ValidationError>,
    ) -> (r: Outcome<Option<Value>>) {
        num_prompt::<i8>(script, c, skippable, header, label, objection)
    }
}

/// A prompt schema: the ordered fields to ask about, keyed by name.
pub struct Schema {
    /// The schema fields, in prompting order.
    pub fields: Vec<(String, Field)>,
}

/// One named question: display metadata, the kind with its constraints,
/// and whether the answer may be skipped.
pub struct Field {
    /// The display name shown as a title above the question.
    pub display_name: Option<String>,
    /// An explicit prompt line; defaults to the display name or to the
    /// field key in title form.
    pub prompt: Option<String>,
    /// The help description shown under the title.
    pub description: String,
    /// The field's kind with its constraints.
    pub type_constraints: TypeConstraints,
    /// Whether the answer may be skipped or left blank.
    pub can_skip: bool,
}

/// A field's kind together with the constraints that kind carries.
pub enum TypeConstraints {
    /// A yes/no field.
    Bool,
    /// A text field.
    Text(StringConstraints),
    /// An unsigned 64-bit number.
    U64(IntConstraints<u64>),
    /// An unsigned 32-bit number.
    U32(IntConstraints<u32>),
    /// An unsigned 16-bit number.
    U16(IntConstraints<u16>),
    /// An unsigned 8-bit number.
    U8(IntConstraints<u8>),
    /// A signed 64-bit number.
    I64(IntConstraints<i64>),
    /// A signed 32-bit number.
    I32(IntConstraints<i32>),
    /// A signed 16-bit number.
    I16(IntConstraints<i16>),
    /// A signed 8-bit number.
    I8(IntConstraints<i8>),
    /// A selection menu, possibly with dependent conditional fields.
    Select { constraints: SelectConstraints, conditions: Conditions },
    /// A nested object of further fields.
    Object { fields: Vec<(String, Field)> },
    /// An array of text values.
    ArrayText { constraints: CollectionConstraints, inner_constraints: StringConstraints },
    /// An array of unsigned 64-bit numbers.
    ArrayU64 { constraints: CollectionConstraints, inner_constraints: IntConstraints<u64> },
    /// An array of unsigned 32-bit numbers.
    ArrayU32 { constraints: CollectionConstraints, inner_constraints: IntConstraints<u32> },
    /// An array of unsigned 16-bit numbers.
    ArrayU16 { constraints: CollectionConstraints, inner_constraints: IntConstraints<u16> },
    /// An array of unsigned 8-bit numbers.
    ArrayU8 { constraints: CollectionConstraints, inner_constraints: IntConstraints<u8> },
    /// An array of signed 64-bit numbers.
    ArrayI64 { constraints: CollectionConstraints, inner_constraints: IntConstraints<i64> },
    /// An array of signed 32-bit numbers.
    ArrayI32 { constraints: CollectionConstraints, inner_constraints: IntConstraints<i32> },
    /// An array of signed 16-bit numbers.
    ArrayI16 { constraints: CollectionConstraints, inner_constraints: IntConstraints<i16> },
    /// An array of signed 8-bit numbers.
    ArrayI8 { constraints: CollectionConstraints, inner_constraints: IntConstraints<i8> },
}

/// One bounded collection pass: up to `max_items` asks, an empty answer
/// stopping early once `min_items` is met, and the shortfall and
/// skip-confirmation handling below the floor.
pub open spec fn interp_collect<T: PromptValue>(
    cc: CollectionConstraints,
    c: T::Constraints,
    can_skip: bool,
    title: Option<Seq<char>>,
    descr: Seq<char>,
    label: Seq<char>,
    complaint: Option<ValidationError>,
    asked: nat,
    collected: Seq<ValModel>,
    evs: Seq<Event>,
) -> (Step<Seq<ValModel>>, Seq<Event>)
    decreases cc.max_items - asked,
{
    if asked >= cc.max_items {
        (Step::Done(collected), evs)
    } else {
        let (st, evs2) = T::interp_ask(c, true, title, descr, label, complaint, evs);
        match st {
            Step::Need(q) => (Step::Need(q), evs2),
            Step::Fail(er) => (Step::Fail(er), evs2),
            Step::Done(o) => match o {
                Some(v) => interp_collect::<T>(
                    cc, c, can_skip, title, descr, label, None, asked + 1,
                    collected.push(v), evs2,
                ),
                None => if collected.len() < cc.min_items {
                    let shortfall = ValidationError::TooFewItems {
                        count: collected.len() as usize,
                        min_items: cc.min_items,
                    };
                    if can_skip {
                        let (st2, evs3) = interp_ask_confirm(
                            title, descr, label, Some(shortfall), evs2,
                        );
                        match st2 {
                            Step::Need(q) => (Step::Need(q), evs3),
                            Step::Fail(er) => (Step::Fail(er), evs3),
                            Step::Done(confirmed) => if confirmed {
                                (Step::Done(collected), evs3)
                            } else {
                                interp_collect::<T>(
                                    cc, c, can_skip, title, descr, label, None, asked + 1,
                                    collected, evs3,
                                )
                            },
                        }
                    } else {
                        interp_collect::<T>(
                            cc, c, can_skip, title, descr, label, Some(shortfall), asked + 1,
                            collected, evs2,
                        )
                    }
                } else {
                    (Step::Done(collected), evs2)
                },
            },
        }
    }
}

/// The title line shown for a field: only outside quiet mode, only when a
/// parent object has not already announced its own, and only when the
/// schema names one.
pub open spec fn field_title(f: Field, quiet: bool, hide_title: bool) -> Option<Seq<char>> {
    if quiet || hide_title {
        None
    } else {
        match f.display_name {
            Some(d) => Some(d@),
            None => None,
        }
    }
}

/// The description shown for a field: absent in quiet mode.
pub open spec fn field_descr(f: Field, quiet: bool) -> Seq<char> {
    if quiet {
        Seq::empty()
    } else {
        f.description@
    }
}

/// The label a field is asked under: its explicit prompt line, else its
/// display name, else its key in human title form.
pub open spec fn field_label(f: Field, key: Seq<char>) -> Seq<char> {
    match f.prompt {
        Some(p) => p@,
        None => match f.display_name {
            Some(d) => d@,
            None => title_case_of(key),
        },
    }
}

/// Lifts a scalar ask to field level: a skip resolves the field to Null.
pub open spec fn opt_to_val(st: Step<Option<ValModel>>) -> Step<ValModel> {
    match st {
        Step::Done(o) => Step::Done(match o {
            Some(v) => v,
            None => ValModel::Null,
        }),
        Step::Need(q) => Step::Need(q),
        Step::Fail(er) => Step::Fail(er),
    }
}

/// Resolving one field: compute its title, description and label, then
/// resolve its kind.
pub open spec fn interp_field(
    f: Field,
    key: Seq<char>,
    quiet: bool,
    hide_title: bool,
    evs: Seq<Event>,
    root: Map<Seq<char>, ValModel>,
) -> (Step<ValModel>, Seq<Event>, Map<Seq<char>, ValModel>)
    decreases evs.len(), f, 1int,
{
    interp_type(
        f.type_constraints,
        field_title(f, quiet, hide_title),
        field_descr(f, quiet),
        field_label(f, key),
        f.can_skip,
        quiet,
        evs,
        root,
    )
}

/// Resolving a list of fields in order, each value going either into the
/// gathered entries or straight into the root document.
pub open spec fn interp_field_list(
    list: Seq<(String, Field)>,
    quiet: bool,
    hide_title: bool,
    to_root: bool,
    acc: Seq<(Seq<char>, ValModel)>,
    evs: Seq<Event>,
    root: Map<Seq<char>, ValModel>,
) -> (Step<Seq<(Seq<char>, ValModel)>>, Seq<Event>, Map<Seq<char>, ValModel>)
    decreases evs.len(), list, 0int,
{
    if list.len() == 0 {
        (Step::Done(acc), evs, root)
    } else {
        let (st, e2, r2) = interp_field(list[0].1, list[0].0@, quiet, hide_title, evs, root);
        match st {
            Step::Done(v) => interp_field_list(
                list.drop_first(),
                quiet,
                hide_title,
                to_root,
                if to_root { acc } else { acc.push((list[0].0@, v)) },
                keep(e2, evs),
                if to_root { r2.insert(list[0].0@, v) } else { r2 },
            ),
            Step::Need(q) => (Step::Need(q), e2, r2),
            Step::Fail(er) => (Step::Fail(er), e2, r2),
        }
    }
}

/// Scanning the if-conditions in order: the first whose trigger value
/// equals the selection fires, resolves its dependent fields, and either
/// pours them into the root (keeping the selection) or gathers them into
/// an object that replaces the selection; later matches are never tried.
pub open spec fn interp_cond_list(
    list: Seq<IfCondition>,
    at_root: bool,
    selected: ValModel,
    quiet: bool,
    evs: Seq<Event>,
    root: Map<Seq<char>, ValModel>,
) -> (Step<Option<ValModel>>, Seq<Event>, Map<Seq<char>, ValModel>)
    decreases evs.len(), list, 0int,
{
    if list.len() == 0 {
        (Step::Done(None), evs, root)
    } else if list[0].picked.model() == selected {
        let (st, e2, r2) = interp_field_list(
            list[0].fields@, quiet, false, at_root, Seq::empty(), evs, root,
        );
        match st {
            Step::Done(entries) => (
                Step::Done(if at_root { None } else { Some(ValModel::Object(entries)) }),
                e2,
                r2,
            ),
            Step::Need(q) => (Step::Need(q), e2, r2),
            Step::Fail(er) => (Step::Fail(er), e2, r2),
        }
    } else {
        interp_cond_list(list.drop_first(), at_root, selected, quiet, evs, root)
    }
}

/// Conditional resolution for one actually-selected value.
pub open spec fn interp_conditions(
    conditions: Conditions,
    selected: ValModel,
    quiet: bool,
    evs: Seq<Event>,
    root: Map<Seq<char>, ValModel>,
) -> (Step<Option<ValModel>>, Seq<Event>, Map<Seq<char>, ValModel>)
    decreases evs.len(), conditions, 1int,
{
    interp_cond_list(
        conditions.if_conditions@, conditions.insert_at_root, selected, quiet, evs, root,
    )
}

/// Resolving each picked value of a multi-selection in order: dependent
/// conditions run once per picked value, and an out-of-range index is
/// passed over.
pub open spec fn interp_multi(
    idxs: Seq<usize>,
    items: Seq<Value>,
    conditions: Conditions,
    quiet: bool,
    acc: Seq<ValModel>,
    evs: Seq<Event>,
    root: Map<Seq<char>, ValModel>,
) -> (Step<Seq<ValModel>>, Seq<Event>, Map<Seq<char>, ValModel>)
    decreases evs.len(), conditions, 2int + idxs.len(),
{
    if idxs.len() == 0 {
        (Step::Done(acc), evs, root)
    } else if (idxs[0] as int) < items.len() {
        let selected = items[idxs[0] as int].model();
        let (st, e2, r2) = interp_conditions(conditions, selected, quiet, evs, root);
        match st {
            Step::Done(ov) => interp_multi(
                idxs.drop_first(),
                items,
                conditions,
                quiet,
                acc.push(match ov {
                    Some(o) => o,
                    None => selected,
                }),
                keep(e2, evs),
                r2,
            ),
            Step::Need(q) => (Step::Need(q), e2, r2),
            Step::Fail(er) => (Step::Fail(er), e2, r2),
        }
    } else {
        interp_multi(idxs.drop_first(), items, conditions, quiet, acc, evs, root)
    }
}

/// Resolving one field kind.
pub open spec fn interp_type(
    tc: TypeConstraints,
    title: Option<Seq<char>>,
    descr: Seq<char>,
    label: Seq<char>,
    can_skip: bool,
    quiet: bool,
    evs: Seq<Event>,
    root: Map<Seq<char>, ValModel>,
) -> (Step<ValModel>, Seq<Event>, Map<Seq<char>, ValModel>)
    decreases evs.len(), tc, 3int,
{
    match tc {
        TypeConstraints::Bool => {
            let (st, e2) = interp_ask_bool(title, descr, label, evs);
            (
                match st {
                    Step::Done(b) => Step::Done(ValModel::Bool(b)),
                    Step::Need(q) => Step::Need(q),
                    Step::Fail(er) => Step::Fail(er),
                },
                e2,
                root,
            )
        }
        TypeConstraints::Text(sc) => {
            let (st, e2) = <String as PromptValue>::interp_ask(
                sc, can_skip, title, descr, label, None, evs,
            );
            (opt_to_val(st), e2, root)
        }
        TypeConstraints::U64(c) => {
            let (st, e2) = <u64 as PromptValue>::interp_ask(
                c, can_skip, title, descr, label, None, evs,
            );
            (opt_to_val(st), e2, root)
        }
        TypeConstraints::U32(c) => {
            let (st, e2) = <u32 as PromptValue>::interp_ask(
                c, can_skip, title, descr, label, None, evs,
            );
            (opt_to_val(st), e2, root)
        }
        TypeConstraints::U16(c) => {
            let (st, e2) = <u16 as PromptValue>::interp_ask(
                c, can_skip, title, descr, label, None, evs,
            );
            (opt_to_val(st), e2, root)
        }
        TypeConstraints::U8(c) => {
            let (st, e2) = <u8 as PromptValue>::interp_ask(
                c, can_skip, title, descr, label, None, evs,
            );
            (opt_to_val(st), e2, root)
        }
        TypeConstraints::I64(c) => {
            let (st, e2) = <i64 as PromptValue>::interp_ask(
                c, can_skip, title, descr, label, None, evs,
            );
            (opt_to_val(st), e2, root)
        }
        TypeConstraints::I32(c) => {
            let (st, e2) = <i32 as PromptValue>::interp_ask(
                c, can_skip, title, descr, label, None, evs,
            );
            (opt_to_val(st), e2, root)
        }
        TypeConstraints::I16(c) => {
            let (st, e2) = <i16 as PromptValue>::interp_ask(
                c, can_skip, title, descr, label, None, evs,
            );
            (opt_to_val(st), e2, root)
        }
        TypeConstraints::I8(c) => {
            let (st, e2) = <i8 as PromptValue>::interp_ask(
                c, can_skip, title, descr, label, None, evs,
            );
            (opt_to_val(st), e2, root)
        }
        TypeConstraints::Object { fields } => {
            let (st, e2, r2) = interp_field_list(
                fields@, quiet, true, false, Seq::empty(), evs, root,
            );
            (
                match st {
                    Step::Done(entries) => Step::Done(ValModel::Object(entries)),
                    Step::Need(q) => Step::Need(q),
                    Step::Fail(er) => Step::Fail(er),
                },
                e2,
                r2,
            )
        }
        TypeConstraints::Select { constraints, conditions } => {
            let opts = options_model(constraints.items@);
            if constraints.select_many {
                let (st, e2) = interp_ask_multi(opts, title, descr, label, evs);
                match st {
                    Step::Need(q) => (Step::Need(q), e2, root),
                    Step::Fail(er) => (Step::Fail(er), e2, root),
                    Step::Done(o) => match o {
                        None => (Step::Done(ValModel::Null), e2, root),
                        Some(idxs) => {
                            let (st2, e3, r3) = interp_multi(
                                idxs, constraints.items@, conditions, quiet, Seq::empty(),
                                keep(e2, evs), root,
                            );
                            (
                                match st2 {
                                    Step::Done(vs) => Step::Done(ValModel::Array(vs)),
                                    Step::Need(q) => Step::Need(q),
                                    Step::Fail(er) => Step::Fail(er),
                                },
                                e3,
                                r3,
                            )
                        }
                    },
                }
            } else {
                let (st, e2) = interp_ask_single(opts, can_skip, title, descr, label, evs);
                match st {
                    Step::Need(q) => (Step::Need(q), e2, root),
                    Step::Fail(er) => (Step::Fail(er), e2, root),
                    Step::Done(o) => match o {
                        None => (Step::Done(ValModel::Null), e2, root),
                        Some(i) => if (i as int) < constraints.items@.len() {
                            let selected = constraints.items@[i as int].model();
                            let (st2, e3, r3) = interp_conditions(
                                conditions, selected, quiet, keep(e2, evs), root,
                            );
                            (
                                match st2 {
                                    Step::Done(ov) => Step::Done(match ov {
                                        Some(o2) => o2,
                                        None => selected,
                                    }),
                                    Step::Need(q) => Step::Need(q),
                                    Step::Fail(er) => Step::Fail(er),
                                },
                                e3,
                                r3,
                            )
                        } else {
                            (Step::Done(ValModel::Null), e2, root)
                        },
                    },
                }
            }
        }
        TypeConstraints::ArrayText { constraints, inner_constraints } => {
            let (st, e2) = interp_collect::<String>(
                constraints, inner_constraints, can_skip, title, descr, label, None, 0,
                Seq::empty(), evs,
            );
            (
                match st {
                    Step::Done(vs) => Step::Done(ValModel::Array(vs)),
                    Step::Need(q) => Step::Need(q),
                    Step::Fail(er) => Step::Fail(er),
                },
                e2,
                root,
            )
        }
        TypeConstraints::ArrayU64 { constraints, inner_constraints } => {
            let (st, e2) = interp_collect::<u64>(
                constraints, inner_constraints, can_skip, title, descr, label, None, 0,
                Seq::empty(), evs,
            );
            (
                match st {
                    Step::Done(vs) => Step::Done(ValModel::Array(vs)),
                    Step::Need(q) => Step::Need(q),
                    Step::Fail(er) => Step::Fail(er),
                },
                e2,
                root,
            )
        }
        TypeConstraints::ArrayU32 { constraints, inner_constraints } => {
            let (st, e2) = interp_collect::<u32>(
                constraints, inner_constraints, can_skip, title, descr, label, None, 0,
                Seq::empty(), evs,
            );
            (
                match st {
                    Step::Done(vs) => Step::Done(ValModel::Array(vs)),
                    Step::Need(q) => Step::Need(q),
                    Step::Fail(er) => Step::Fail(er),
                },
                e2,
                root,
            )
        }
        TypeConstraints::ArrayU16 { constraints, inner_constraints } => {
            let (st, e2) = interp_collect::<u16>(
                constraints, inner_constraints, can_skip, title, descr, label, None, 0,
                Seq::empty(), evs,
            );
            (
                match st {
                    Step::Done(vs) => Step::Done(ValModel::Array(vs)),
                    Step::Need(q) => Step::Need(q),
                    Step::Fail(er) => Step::Fail(er),
                },
                e2,
                root,
            )
        }
        TypeConstraints::ArrayU8 { constraints, inner_constraints } => {
            let (st, e2) = interp_collect::<u8>(
                constraints, inner_constraints, can_skip, title, descr, label, None, 0,
                Seq::empty(), evs,
            );
            (
                match st {
                    Step::Done(vs) => Step::Done(ValModel::Array(vs)),
                    Step::Need(q) => Step::Need(q),
                    Step::Fail(er) => Step::Fail(er),
                },
                e2,
                root,
            )
        }
        TypeConstraints::ArrayI64 { constraints, inner_constraints } => {
            let (st, e2) = interp_collect::<i64>(
                constraints, inner_constraints, can_skip, title, descr, label, None, 0,
                Seq::empty(), evs,
            );
            (
                match st {
                    Step::Done(vs) => Step::Done(ValModel::Array(vs)),
                    Step::Need(q) => Step::Need(q),
                    Step::Fail(er) => Step::Fail(er),
                },
                e2,
                root,
            )
        }
        TypeConstraints::ArrayI32 { constraints, inner_constraints } => {
            let (st, e2) = interp_collect::<i32>(
                constraints, inner_constraints, can_skip, title, descr, label, None, 0,
                Seq::empty(), evs,
            );
            (
                match st {
                    Step::Done(vs) => Step::Done(ValModel::Array(vs)),
                    Step::Need(q) => Step::Need(q),
                    Step::Fail(er) => Step::Fail(er),
                },
                e2,
                root,
            )
        }
        TypeConstraints::ArrayI16 { constraints, inner_constraints } => {
            let (st, e2) = interp_collect::<i16>(
                constraints, inner_constraints, can_skip, title, descr, label, None, 0,
                Seq::empty(), evs,
            );
            (
                match st {
                    Step::Done(vs) => Step::Done(ValModel::Array(vs)),
                    Step::Need(q) => Step::Need(q),
                    Step::Fail(er) => Step::Fail(er),
                },
                e2,
                root,
            )
        }
        TypeConstraints::ArrayI8 { constraints, inner_constraints } => {
            let (st, e2) = interp_collect::<i8>(
                constraints, inner_constraints, can_skip, title, descr, label, None, 0,
                Seq::empty(), evs,
            );
            (
                match st {
                    Step::Done(vs) => Step::Done(ValModel::Array(vs)),
                    Step::Need(q) => Step::Need(q),
                    Step::Fail(er) => Step::Fail(er),
                },
                e2,
                root,
            )
        }
    }
}

/// One whole traversal: every field in declared order, answers gathered
/// into one result mapping.
pub open spec fn interp_schema(
    s: Schema,
    quiet: bool,
    evs: Seq<Event>,
) -> (Step<Map<Seq<char>, ValModel>>, Seq<Event>) {
    let (st, e2, r2) = interp_field_list(
        s.fields@, quiet, false, true, Seq::empty(), evs, Map::empty(),
    );
    (
        match st {
            Step::Done(_) => Step::Done(r2),
            Step::Need(q) => Step::Need(q),
            Step::Fail(er) => Step::Fail(er),
        },
        e2,
    )
}

/// Agreement between an executable outcome and its model.
pub open spec fn agree_val(r: Outcome<Value>, st: Step<ValModel>) -> bool {
    match (r, st) {
        (Outcome::Done(v), Step::Done(m)) => v.model() == m,
        (Outcome::Need(q), Step::Need(qm)) => q.model() == qm,
        (Outcome::Fail(e), Step::Fail(f)) => e == f,
        _ => false,
    }
}

pub open spec fn agree_opt_val(r: Outcome<Option<Value>>, st: Step<Option<ValModel>>) -> bool {
    match (r, st) {
        (Outcome::Done(a), Step::Done(b)) => match (a, b) {
            (Some(v), Some(m)) => v.model() == m,
            (None, None) => true,
            _ => false,
        },
        (Outcome::Need(q), Step::Need(qm)) => q.model() == qm,
        (Outcome::Fail(e), Step::Fail(f)) => e == f,
        _ => false,
    }
}

pub open spec fn agree_entries(
    r: Outcome<Vec<(String, Value)>>,
    st: Step<Seq<(Seq<char>, ValModel)>>,
) -> bool {
    match (r, st) {
        (Outcome::Done(v), Step::Done(m)) => pairs_model(v@) == m,
        (Outcome::Need(q), Step::Need(qm)) => q.model() == qm,
        (Outcome::Fail(e), Step::Fail(f)) => e == f,
        _ => false,
    }
}

/// The bounded repeat-prompt loop for one array field: collects items of
/// one kind, enforcing the collection's cardinality bounds.
pub fn array_prompter<T: PromptValue>(
    can_skip: bool,
    header: &Header,
    field_name: &String,
    constraints: &CollectionConstraints,
    validator: &T::Constraints,
    script: &mut Script,
) -> (r: Outcome<Value>)
    ensures
        final(script).remaining().len() <= old(script).remaining().len(),
        ({
            let (st, e2) = interp_collect::<T>(
                *constraints, *validator, can_skip, header.title_model(), header.description@,
                field_name@, None, 0, Seq::empty(), old(script).remaining(),
            );
            final(script).remaining() == e2 && match (r, st) {
                (Outcome::Done(v), Step::Done(vs)) => v.model() == ValModel::Array(vs),
                (Outcome::Need(q), Step::Need(qm)) => q.model() == qm,
                (Outcome::Fail(e), Step::Fail(f)) => e == f,
                _ => false,
            }
        }),
{
    let ghost evs0 = old(script).remaining();
    let ghost t = header.title_model();
    let ghost d = header.description@;
    let ghost l = field_name@;
    let mut values: Vec<Value> = Vec::new();
    let mut asked: usize = 0;
    let mut complaint: Option<ValidationError> = None;
    proof {
        assert(vals_model(values@) =~= Seq::empty());
    }
    loop
        invariant
            evs0 == old(script).remaining(),
            t == header.title_model(),
            d == header.description@,
            l == field_name@,
            script.remaining().len() <= evs0.len(),
            asked <= constraints.max_items,
            interp_collect::<T>(
                *constraints, *validator, can_skip, t, d, l, complaint, asked as nat,
                vals_model(values@), script.remaining(),
            ) == interp_collect::<T>(
                *constraints, *validator, can_skip, t, d, l, None, 0, Seq::empty(), evs0,
            ),
        decreases constraints.max_items - asked,
    {
        if asked >= constraints.max_items {
            let ghost vm = vals_model(values@);
            let out = Value::Array(values);
            proof {
                assert(out.model() matches ValModel::Array(s) && s =~= vm);
            }
            return Outcome::Done(out);
        }
        let ghost rem0 = script.remaining();
        match T::prompt(script, validator, true, header, field_name, complaint) {
            Outcome::Need(q) => {
                return Outcome::Need(q);
            }
            Outcome::Fail(e) => {
                return Outcome::Fail(e);
            }
            Outcome::Done(Some(v)) => {
                let ghost before = vals_model(values@);
                values.push(v);
                proof {
                    assert(vals_model(values@) =~= before.push(values@.last().model()));
                }
                asked = asked + 1;
                complaint = None;
            }
            Outcome::Done(None) => {
                if values.len() < constraints.min_items {
                    let shortfall = ValidationError::TooFewItems {
                        count: values.len(),
                        min_items: constraints.min_items,
                    };
                    proof {
                        assert(vals_model(values@).len() == values@.len());
                    }
                    if can_skip {
                        match ask_confirm(script, header, field_name, Some(shortfall)) {
                            Outcome::Need(q) => {
                                return Outcome::Need(q);
                            }
                            Outcome::Fail(e) => {
                                return Outcome::Fail(e);
                            }
                            Outcome::Done(true) => {
                                let ghost vm = vals_model(values@);
                                let out = Value::Array(values);
                                proof {
                                    assert(out.model() matches ValModel::Array(s) && s =~= vm);
                                }
                                return Outcome::Done(out);
                            }
                            Outcome::Done(false) => {
                                asked = asked + 1;
                                complaint = None;
                            }
                        }
                    } else {
                        asked = asked + 1;
                        complaint = Some(shortfall);
                    }
                } else {
                    proof {
                        assert(vals_model(values@).len() == values@.len());
                    }
                    let ghost vm = vals_model(values@);
                    let out = Value::Array(values);
                    proof {
                        assert(out.model() matches ValModel::Array(s) && s =~= vm);
                    }
                    return Outcome::Done(out);
                }
            }
        }
    }
}

/// Resolves a list of fields in order, handing each value either to the
/// gathered entries or straight into the root document.
pub fn prompt_field_list(
    fields: &Vec<(String, Field)>,
    quiet: bool,
    hide_title: bool,
    to_root: bool,
    script: &mut Script,
    populated_fields: &mut Document,
) -> (r: Outcome<Vec<(String, Value)>>)
    requires
        old(populated_fields).wf(),
    ensures
        final(populated_fields).wf(),
        final(script).remaining().len() <= old(script).remaining().len(),
        ({
            let (st, e2, r2) = interp_field_list(
                fields@, quiet, hide_title, to_root, Seq::empty(), old(script).remaining(),
                old(populated_fields).model(),
            );
            final(script).remaining() == e2 && final(populated_fields).model() == r2
                && agree_entries(r, st)
        }),
    decreases script.remaining().len(), fields@, 2int,
{
    let ghost evs0 = old(script).remaining();
    let ghost root0 = old(populated_fields).model();
    let mut out: Vec<(String, Value)> = Vec::new();
    let mut k: usize = 0;
    let n = fields.len();
    proof {
        assert(fields@.skip(0) =~= fields@);
        assert(pairs_model(out@) =~= Seq::empty());
    }
    while k < n
        invariant
            n == fields@.len(),
            k <= n,
            evs0 == old(script).remaining(),
            root0 == old(populated_fields).model(),
            populated_fields.wf(),
            script.remaining().len() <= evs0.len(),
            interp_field_list(
                fields@.skip(k as int), quiet, hide_title, to_root, pairs_model(out@),
                script.remaining(), populated_fields.model(),
            ) == interp_field_list(
                fields@, quiet, hide_title, to_root, Seq::empty(), evs0, root0,
            ),
        decreases n - k,
    {
        let ghost suffix = fields@.skip(k as int);
        let ghost rem_k = script.remaining();
        let ghost root_k = populated_fields.model();
        proof {
            assert(suffix.len() > 0);
            assert(suffix[0] == fields@[k as int]);
        }
        let key = &fields[k].0;
        let field = &fields[k].1;
        let res = field.prompt(key, quiet, hide_title, script, populated_fields);
        match res {
            Outcome::Need(q) => {
                return Outcome::Need(q);
            }
            Outcome::Fail(e) => {
                return Outcome::Fail(e);
            }
            Outcome::Done(v) => {
                proof {
                    assert(keep(script.remaining(), rem_k) == script.remaining());
                    assert(suffix.drop_first() =~= fields@.skip(k + 1));
                }
                if to_root {
                    populated_fields.insert(key, v);
                } else {
                    let ghost before = pairs_model(out@);
                    let owned_key = key.clone();
                    out.push((owned_key, v));
                    proof {
                        assert(pairs_model(out@) =~= before.push(
                            (out@.last().0@, out@.last().1.model()),
                        ));
                    }
                }
                k = k + 1;
            }
        }
    }
    proof {
        assert(fields@.skip(k as int).len() == 0);
    }
    Outcome::Done(out)
}

impl Field {
    /// Resolves this one field to one value: computes the title,
    /// description and label the operator sees, then asks according to the
    /// field's kind.
    pub fn prompt(
        &self,
        field_key: &String,
        quiet: bool,
        hide_title: bool,
        script: &mut Script,
        populated_fields: &mut Document,
    ) -> (r: Outcome<Value>)
        requires
            old(populated_fields).wf(),
        ensures
            final(populated_fields).wf(),
            final(script).remaining().len() <= old(script).remaining().len(),
            ({
                let (st, e2, r2) = interp_field(
                    *self, field_key@, quiet, hide_title, old(script).remaining(),
                    old(populated_fields).model(),
                );
                final(script).remaining() == e2 && final(populated_fields).model() == r2
                    && agree_val(r, st)
            }),
        decreases script.remaining().len(), *self, 1int,
    {
        let header = if quiet {
            Header { title: None, description: String::new() }
        } else {
            Header {
                title: if hide_title {
                    None
                } else {
                    match &self.display_name {
                        Some(d) => Some(d.clone()),
                        None => None,
                    }
                },
                description: self.description.clone(),
            }
        };
        let label = match &self.prompt {
            Some(p) => p.clone(),
            None => match &self.display_name {
                Some(d) => d.clone(),
                None => to_title_case(field_key.as_str()),
            },
        };
        proof {
            assert(header.title_model() == field_title(*self, quiet, hide_title));
            assert(header.description@ == field_descr(*self, quiet));
            assert(label@ == field_label(*self, field_key@));
        }
        self.type_constraints.prompt(&header, &label, self.can_skip, quiet, script, populated_fields)
    }
}

/// Checks a selection against the declared if-conditions: the first whose
/// trigger equals the selected value fires its dependent fields; the
/// returned override, if any, replaces the selection.
pub fn check_conditions(
    conditions: &Conditions,
    selected: &Value,
    quiet: bool,
    script: &mut Script,
    populated_fields: &mut Document,
) -> (r: Outcome<Option<Value>>)
    requires
        old(populated_fields).wf(),
    ensures
        final(populated_fields).wf(),
        final(script).remaining().len() <= old(script).remaining().len(),
        ({
            let (st, e2, r2) = interp_conditions(
                *conditions, selected.model(), quiet, old(script).remaining(),
                old(populated_fields).model(),
            );
            final(script).remaining() == e2 && final(populated_fields).model() == r2
                && agree_opt_val(r, st)
        }),
    decreases script.remaining().len(), *conditions, 1int,
{
    let ghost evs0 = old(script).remaining();
    let ghost root0 = old(populated_fields).model();
    let n = conditions.if_conditions.len();
    let mut k: usize = 0;
    proof {
        assert(conditions.if_conditions@.skip(0) =~= conditions.if_conditions@);
    }
    while k < n
        invariant
            n == conditions.if_conditions@.len(),
            k <= n,
            evs0 == old(script).remaining(),
            root0 == old(populated_fields).model(),
            populated_fields.wf(),
            *populated_fields == *old(populated_fields),
            script.remaining() == evs0,
            interp_cond_list(
                conditions.if_conditions@.skip(k as int), conditions.insert_at_root,
                selected.model(), quiet, evs0, root0,
            ) == interp_cond_list(
                conditions.if_conditions@, conditions.insert_at_root, selected.model(), quiet,
                evs0, root0,
            ),
        decreases n - k,
    {
        let ghost suffix = conditions.if_conditions@.skip(k as int);
        proof {
            assert(suffix.len() > 0);
            assert(suffix[0] == conditions.if_conditions@[k as int]);
        }
        let condition = &conditions.if_conditions[k];
        if value_eq(&condition.picked, selected) {
            let res = prompt_field_list(
                &condition.fields, quiet, false, conditions.insert_at_root, script,
                populated_fields,
            );
            match res {
                Outcome::Need(q) => {
                    return Outcome::Need(q);
                }
                Outcome::Fail(e) => {
                    return Outcome::Fail(e);
                }
                Outcome::Done(entries) => {
                    if conditions.insert_at_root {
                        return Outcome::Done(None);
                    }
                    let ghost em = pairs_model(entries@);
                    let object = Value::Object(entries);
                    proof {
                        assert(object.model() matches ValModel::Object(s) && s =~= em);
                    }
                    return Outcome::Done(Some(object));
                }
            }
        }
        proof {
            assert(suffix.drop_first() =~= conditions.if_conditions@.skip(k + 1));
        }
        k = k + 1;
    }
    proof {
        assert(conditions.if_conditions@.skip(k as int).len() == 0);
    }
    Outcome::Done(None)
}


/// Resolves one selection field: a single- or multi-selection menu, then
/// conditional resolution for each actually-selected value.
fn prompt_select(
    Ghost(tc): Ghost<TypeConstraints>,
    constraints: &SelectConstraints,
    conditions: &Conditions,
    header: &Header,
    field_name: &String,
    can_skip: bool,
    quiet: bool,
    script: &mut Script,
    populated_fields: &mut Document,
) -> (r: Outcome<Value>)
    requires
        old(populated_fields).wf(),
        tc == (TypeConstraints::Select { constraints: *constraints, conditions: *conditions }),
    ensures
        final(populated_fields).wf(),
        final(script).remaining().len() <= old(script).remaining().len(),
        ({
            let (st, e2, r2) = interp_type(
                tc, header.title_model(), header.description@, field_name@, can_skip, quiet,
                old(script).remaining(), old(populated_fields).model(),
            );
            final(script).remaining() == e2 && final(populated_fields).model() == r2
                && agree_val(r, st)
        }),
    decreases script.remaining().len(), tc, 0int,
{
        let options = display_items(&constraints.items);
        proof {
            assert(Seq::new(options@.len(), |i: int| options@[i]@) =~= options_model(
                constraints.items@,
            ));
        }
        if constraints.select_many {
            match ask_multi(script, options, header, field_name) {
                Outcome::Need(q) => Outcome::Need(q),
                Outcome::Fail(e) => Outcome::Fail(e),
                Outcome::Done(None) => Outcome::Done(Value::Null),
                Outcome::Done(Some(idxs)) => {
                    let ghost evs_multi = script.remaining();
                    let ghost root_multi = populated_fields.model();
                    proof {
                        assert(keep(evs_multi, old(script).remaining()) == evs_multi);
                    }
                    let mut values: Vec<Value> = Vec::new();
                    let mut k: usize = 0;
                    let m = idxs.len();
                    proof {
                        assert(idxs@.skip(0) =~= idxs@);
                        assert(vals_model(values@) =~= Seq::empty());
                    }
                    while k < m
                        invariant
                            m == idxs@.len(),
                            k <= m,
                            tc == (TypeConstraints::Select {
                                constraints: *constraints,
                                conditions: *conditions,
                            }),
                            old(populated_fields).wf(),
                            populated_fields.wf(),
                            evs_multi.len() <= old(script).remaining().len(),
                            script.remaining().len() <= evs_multi.len(),
                            root_multi == old(populated_fields).model(),
                            ({
                                let (st0, e0, r0) = interp_type(
                                    tc, header.title_model(), header.description@,
                                    field_name@, can_skip, quiet, old(script).remaining(),
                                    old(populated_fields).model(),
                                );
                                let (st1, e1, r1) = interp_multi(
                                    idxs@, constraints.items@, *conditions, quiet,
                                    Seq::empty(), evs_multi, root_multi,
                                );
                                st0 == (match st1 {
                                    Step::Done(vs) => Step::<ValModel>::Done(
                                        ValModel::Array(vs),
                                    ),
                                    Step::Need(q) => Step::<ValModel>::Need(q),
                                    Step::Fail(er) => Step::<ValModel>::Fail(er),
                                }) && e0 == e1 && r0 == r1
                            }),
                            interp_multi(
                                idxs@.skip(k as int), constraints.items@, *conditions,
                                quiet, vals_model(values@), script.remaining(),
                                populated_fields.model(),
                            ) == interp_multi(
                                idxs@, constraints.items@, *conditions, quiet,
                                Seq::empty(), evs_multi, root_multi,
                            ),
                        decreases m - k,
                    {
                        let ghost suffix = idxs@.skip(k as int);
                        let ghost rem_k = script.remaining();
                        proof {
                            assert(suffix.len() > 0);
                            assert(suffix[0] == idxs@[k as int]);
                            assert(suffix.drop_first() =~= idxs@.skip(k + 1));
                        }
                        let idx = idxs[k];
                        if idx < constraints.items.len() {
                            let selected = constraints.items[idx].duplicate();
                            match check_conditions(
                                conditions, &selected, quiet, script, populated_fields,
                            ) {
                                Outcome::Need(q) => {
                                    return Outcome::Need(q);
                                }
                                Outcome::Fail(e) => {
                                    return Outcome::Fail(e);
                                }
                                Outcome::Done(overriding) => {
                                    proof {
                                        assert(keep(script.remaining(), rem_k)
                                            == script.remaining());
                                    }
                                    let ghost before = vals_model(values@);
                                    let v = match overriding {
                                        Some(o) => o,
                                        None => selected,
                                    };
                                    values.push(v);
                                    proof {
                                        assert(vals_model(values@) =~= before.push(
                                            values@.last().model(),
                                        ));
                                    }
                                }
                            }
                        }
                        k = k + 1;
                    }
                    proof {
                        assert(idxs@.skip(k as int).len() == 0);
                    }
                    let ghost vm = vals_model(values@);
                    let out = Value::Array(values);
                    proof {
                        assert(out.model() matches ValModel::Array(s) && s =~= vm);
                    }
                    Outcome::Done(out)
                }
            }
        } else {
            match ask_single(script, options, can_skip, header, field_name) {
                Outcome::Need(q) => Outcome::Need(q),
                Outcome::Fail(e) => Outcome::Fail(e),
                Outcome::Done(None) => Outcome::Done(Value::Null),
                Outcome::Done(Some(idx)) => {
                    if idx < constraints.items.len() {
                        proof {
                            assert(keep(
                                script.remaining(), old(script).remaining(),
                            ) == script.remaining());
                        }
                        let selected = constraints.items[idx].duplicate();
                        match check_conditions(
                            conditions, &selected, quiet, script, populated_fields,
                        ) {
                            Outcome::Need(q) => Outcome::Need(q),
                            Outcome::Fail(e) => Outcome::Fail(e),
                            Outcome::Done(Some(overriding)) => Outcome::Done(overriding),
                            Outcome::Done(None) => Outcome::Done(selected),
                        }
                    } else {
                        Outcome::Done(Value::Null)
                    }
                }
            }
        }
    }

impl TypeConstraints {
    /// Resolves one field kind under the given context lines and label.
    #[verifier::rlimit(100)]
    pub fn prompt(
        &self,
        header: &Header,
        field_name: &String,
        can_skip: bool,
        quiet: bool,
        script: &mut Script,
        populated_fields: &mut Document,
    ) -> (r: Outcome<Value>)
        requires
            old(populated_fields).wf(),
        ensures
            final(populated_fields).wf(),
            final(script).remaining().len() <= old(script).remaining().len(),
            ({
                let (st, e2, r2) = interp_type(
                    *self, header.title_model(), header.description@, field_name@, can_skip,
                    quiet, old(script).remaining(), old(populated_fields).model(),
                );
                final(script).remaining() == e2 && final(populated_fields).model() == r2
                    && agree_val(r, st)
            }),
        decreases script.remaining().len(), *self, 1int,
    {
        match self {
            TypeConstraints::Select { constraints, conditions } => prompt_select(
                Ghost(*self), constraints, conditions, header, field_name, can_skip, quiet,
                script, populated_fields,
            ),
            TypeConstraints::Object { fields } => {
                match prompt_field_list(fields, quiet, true, false, script, populated_fields) {
                    Outcome::Done(entries) => {
                        let ghost em = pairs_model(entries@);
                        let object = Value::Object(entries);
                        proof {
                            assert(object.model() matches ValModel::Object(s) && s =~= em);
                        }
                        Outcome::Done(object)
                    }
                    Outcome::Need(q) => Outcome::Need(q),
                    Outcome::Fail(e) => Outcome::Fail(e),
                }
            }
            TypeConstraints::ArrayText { .. } | TypeConstraints::ArrayU64 { .. }
                | TypeConstraints::ArrayU32 { .. } | TypeConstraints::ArrayU16 { .. }
                | TypeConstraints::ArrayU8 { .. } | TypeConstraints::ArrayI64 { .. }
                | TypeConstraints::ArrayI32 { .. } | TypeConstraints::ArrayI16 { .. }
                | TypeConstraints::ArrayI8 { .. } => self.prompt_arrays(
                header, field_name, can_skip, quiet, script,
                Ghost(old(populated_fields).model()),
            ),
            _ => self.prompt_scalar(
                header, field_name, can_skip, quiet, script,
                Ghost(old(populated_fields).model()),
            ),
        }
    }
}


impl TypeConstraints {
    /// Whether this kind is a bare scalar question.
    pub open spec fn is_scalar(self) -> bool {
        self matches TypeConstraints::Bool || self matches TypeConstraints::Text(_)
            || self matches TypeConstraints::U64(_) || self matches TypeConstraints::U32(_)
            || self matches TypeConstraints::U16(_) || self matches TypeConstraints::U8(_)
            || self matches TypeConstraints::I64(_) || self matches TypeConstraints::I32(_)
            || self matches TypeConstraints::I16(_) || self matches TypeConstraints::I8(_)
    }

    /// Whether this kind is an array of scalars.
    pub open spec fn is_array(self) -> bool {
        self matches TypeConstraints::ArrayText { .. }
            || self matches TypeConstraints::ArrayU64 { .. }
            || self matches TypeConstraints::ArrayU32 { .. }
            || self matches TypeConstraints::ArrayU16 { .. }
            || self matches TypeConstraints::ArrayU8 { .. }
            || self matches TypeConstraints::ArrayI64 { .. }
            || self matches TypeConstraints::ArrayI32 { .. }
            || self matches TypeConstraints::ArrayI16 { .. }
            || self matches TypeConstraints::ArrayI8 { .. }
    }

    #[verifier::rlimit(100)]
    #[verifier::spinoff_prover]
    fn prompt_scalar_u(
        &self,
        header: &Header,
        field_name: &String,
        can_skip: bool,
        quiet: bool,
        script: &mut Script,
        Ghost(root): Ghost<Map<Seq<char>, ValModel>>,
    ) -> (r: Outcome<Value>)
        requires
            self matches TypeConstraints::U64(_) || self matches TypeConstraints::U32(_)
                || self matches TypeConstraints::U16(_) || self matches TypeConstraints::U8(_),
        ensures
            final(script).remaining().len() <= old(script).remaining().len(),
            ({
                let (st, e2, r2) = interp_type(
                    *self, header.title_model(), header.description@, field_name@, can_skip,
                    quiet, old(script).remaining(), root,
                );
                final(script).remaining() == e2 && r2 == root && agree_val(r, st)
            }),
    {
        match self {
            TypeConstraints::U64(c) => {
                match <u64 as PromptValue>::prompt(
                    script, c, can_skip, header, field_name, None,
                ) {
                    Outcome::Done(Some(v)) => Outcome::Done(v),
                    Outcome::Done(None) => Outcome::Done(Value::Null),
                    Outcome::Need(q) => Outcome::Need(q),
                    Outcome::Fail(e) => Outcome::Fail(e),
                }
            }
            TypeConstraints::U32(c) => {
                match <u32 as PromptValue>::prompt(
                    script, c, can_skip, header, field_name, None,
                ) {
                    Outcome::Done(Some(v)) => Outcome::Done(v),
                    Outcome::Done(None) => Outcome::Done(Value::Null),
                    Outcome::Need(q) => Outcome::Need(q),
                    Outcome::Fail(e) => Outcome::Fail(e),
                }
            }
            TypeConstraints::U16(c) => {
                match <u16 as PromptValue>::prompt(
                    script, c, can_skip, header, field_name, None,
                ) {
                    Outcome::Done(Some(v)) => Outcome::Done(v),
                    Outcome::Done(None) => Outcome::Done(Value::Null),
                    Outcome::Need(q) => Outcome::Need(q),
                    Outcome::Fail(e) => Outcome::Fail(e),
                }
            }
            TypeConstraints::U8(c) => {
                match <u8 as PromptValue>::prompt(
                    script, c, can_skip, header, field_name, None,
                ) {
                    Outcome::Done(Some(v)) => Outcome::Done(v),
                    Outcome::Done(None) => Outcome::Done(Value::Null),
                    Outcome::Need(q) => Outcome::Need(q),
                    Outcome::Fail(e) => Outcome::Fail(e),
                }
            }
            _ => {
                proof {
                    assert(false);
                }
                Outcome::Fail(PromptError::ChannelClosed)
            }
        }
    }

    #[verifier::rlimit(100)]
    #[verifier::spinoff_prover]
    fn prompt_scalar_i(
        &self,
        header: &Header,
        field_name: &String,
        can_skip: bool,
        quiet: bool,
        script: &mut Script,
        Ghost(root): Ghost<Map<Seq<char>, ValModel>>,
    ) -> (r: Outcome<Value>)
        requires
            self matches TypeConstraints::I64(_) || self matches TypeConstraints::I32(_)
                || self matches TypeConstraints::I16(_) || self matches TypeConstraints::I8(_),
        ensures
            final(script).remaining().len() <= old(script).remaining().len(),
            ({
                let (st, e2, r2) = interp_type(
                    *self, header.title_model(), header.description@, field_name@, can_skip,
                    quiet, old(script).remaining(), root,
                );
                final(script).remaining() == e2 && r2 == root && agree_val(r, st)
            }),
    {
        match self {
            TypeConstraints::I64(c) => {
                match <i64 as PromptValue>::prompt(
                    script, c, can_skip, header, field_name, None,
                ) {
                    Outcome::Done(Some(v)) => Outcome::Done(v),
                    Outcome::Done(None) => Outcome::Done(Value::Null),
                    Outcome::Need(q) => Outcome::Need(q),
                    Outcome::Fail(e) => Outcome::Fail(e),
                }
            }
            TypeConstraints::I32(c) => {
                match <i32 as PromptValue>::prompt(
                    script, c, can_skip, header, field_name, None,
                ) {
                    Outcome::Done(Some(v)) => Outcome::Done(v),
                    Outcome::Done(None) => Outcome::Done(Value::Null),
                    Outcome::Need(q) => Outcome::Need(q),
                    Outcome::Fail(e) => Outcome::Fail(e),
                }
            }
            TypeConstraints::I16(c) => {
                match <i16 as PromptValue>::prompt(
                    script, c, can_skip, header, field_name, None,
                ) {
                    Outcome::Done(Some(v)) => Outcome::Done(v),
                    Outcome::Done(None) => Outcome::Done(Value::Null),
                    Outcome::Need(q) => Outcome::Need(q),
                    Outcome::Fail(e) => Outcome::Fail(e),
                }
            }
            TypeConstraints::I8(c) => {
                match <i8 as PromptValue>::prompt(
                    script, c, can_skip, header, field_name, None,
                ) {
                    Outcome::Done(Some(v)) => Outcome::Done(v),
                    Outcome::Done(None) => Outcome::Done(Value::Null),
                    Outcome::Need(q) => Outcome::Need(q),
                    Outcome::Fail(e) => Outcome::Fail(e),
                }
            }
            _ => {
                proof {
                    assert(false);
                }
                Outcome::Fail(PromptError::ChannelClosed)
            }
        }
    }

    #[verifier::rlimit(100)]
    #[verifier::spinoff_prover]
    fn prompt_scalar(
        &self,
        header: &Header,
        field_name: &String,
        can_skip: bool,
        quiet: bool,
        script: &mut Script,
        Ghost(root): Ghost<Map<Seq<char>, ValModel>>,
    ) -> (r: Outcome<Value>)
        requires
            self.is_scalar(),
        ensures
            final(script).remaining().len() <= old(script).remaining().len(),
            ({
                let (st, e2, r2) = interp_type(
                    *self, header.title_model(), header.description@, field_name@, can_skip,
                    quiet, old(script).remaining(), root,
                );
                final(script).remaining() == e2 && r2 == root && agree_val(r, st)
            }),
    {
        match self {
            TypeConstraints::Bool => {
                match ask_bool(script, header, field_name) {
                    Outcome::Done(b) => Outcome::Done(Value::Bool(b)),
                    Outcome::Need(q) => Outcome::Need(q),
                    Outcome::Fail(e) => Outcome::Fail(e),
                }
            }
            TypeConstraints::Text(sc) => {
                match <String as PromptValue>::prompt(
                    script, sc, can_skip, header, field_name, None,
                ) {
                    Outcome::Done(Some(v)) => Outcome::Done(v),
                    Outcome::Done(None) => Outcome::Done(Value::Null),
                    Outcome::Need(q) => Outcome::Need(q),
                    Outcome::Fail(e) => Outcome::Fail(e),
                }
            }
            TypeConstraints::U64(_) | TypeConstraints::U32(_) | TypeConstraints::U16(_)
                | TypeConstraints::U8(_) => self.prompt_scalar_u(
                header, field_name, can_skip, quiet, script, Ghost(root),
            ),
            TypeConstraints::I64(_) | TypeConstraints::I32(_) | TypeConstraints::I16(_)
                | TypeConstraints::I8(_) => self.prompt_scalar_i(
                header, field_name, can_skip, quiet, script, Ghost(root),
            ),
            _ => {
                proof {
                    assert(false);
                }
                Outcome::Fail(PromptError::ChannelClosed)
            }
        }
    }

    #[verifier::rlimit(100)]
    #[verifier::spinoff_prover]
    fn prompt_arrays(
        &self,
        header: &Header,
        field_name: &String,
        can_skip: bool,
        quiet: bool,
        script: &mut Script,
        Ghost(root): Ghost<Map<Seq<char>, ValModel>>,
    ) -> (r: Outcome<Value>)
        requires
            self.is_array(),
        ensures
            final(script).remaining().len() <= old(script).remaining().len(),
            ({
                let (st, e2, r2) = interp_type(
                    *self, header.title_model(), header.description@, field_name@, can_skip,
                    quiet, old(script).remaining(), root,
                );
                final(script).remaining() == e2 && r2 == root && agree_val(r, st)
            }),
    {
        match self {
            TypeConstraints::ArrayText { constraints, inner_constraints } => array_prompter::<
                String,
            >(can_skip, header, field_name, constraints, inner_constraints, script),
            TypeConstraints::ArrayU64 { constraints, inner_constraints } => array_prompter::<
                u64,
            >(can_skip, header, field_name, constraints, inner_constraints, script),
            TypeConstraints::ArrayU32 { constraints, inner_constraints } => array_prompter::<
                u32,
            >(can_skip, header, field_name, constraints, inner_constraints, script),
            TypeConstraints::ArrayU16 { constraints, inner_constraints } => array_prompter::<
                u16,
            >(can_skip, header, field_name, constraints, inner_constraints, script),
            TypeConstraints::ArrayU8 { constraints, inner_constraints } => array_prompter::<
                u8,
            >(can_skip, header, field_name, constraints, inner_constraints, script),
            TypeConstraints::ArrayI64 { constraints, inner_constraints } => array_prompter::<
                i64,
            >(can_skip, header, field_name, constraints, inner_constraints, script),
            TypeConstraints::ArrayI32 { constraints, inner_constraints } => array_prompter::<
                i32,
            >(can_skip, header, field_name, constraints, inner_constraints, script),
            TypeConstraints::ArrayI16 { constraints, inner_constraints } => array_prompter::<
                i16,
            >(can_skip, header, field_name, constraints, inner_constraints, script),
            TypeConstraints::ArrayI8 { constraints, inner_constraints } => array_prompter::<
                i8,
            >(can_skip, header, field_name, constraints, inner_constraints, script),
            _ => {
                proof {
                    assert(false);
                }
                Outcome::Fail(PromptError::ChannelClosed)
            }
        }
    }
}

impl Schema {
    /// Walks every field in declared order, gathering one value per field
    /// key into a fresh result document. The first channel failure aborts
    /// the whole traversal with no partial result.
    pub fn prompt(&self, quiet: bool, script: &mut Script) -> (r: Outcome<Document>)
        ensures
            final(script).remaining().len() <= old(script).remaining().len(),
            ({
                let (st, e2) = interp_schema(*self, quiet, old(script).remaining());
                final(script).remaining() == e2 && match (r, st) {
                    (Outcome::Done(doc), Step::Done(m)) => doc.wf() && doc.model() == m,
                    (Outcome::Need(q), Step::Need(qm)) => q.model() == qm,
                    (Outcome::Fail(e), Step::Fail(f)) => e == f,
                    _ => false,
                }
            }),
    {
        let mut populated_fields = Document::new();
        match prompt_field_list(&self.fields, quiet, false, true, script, &mut populated_fields) {
            Outcome::Done(_) => Outcome::Done(populated_fields),
            Outcome::Need(q) => Outcome::Need(q),
            Outcome::Fail(e) => Outcome::Fail(e),
        }
    }
}

/// Skip idempotence: for a skippable text field whose next answer is
/// empty, the ask resolves to a skip at once, consuming exactly that
/// answer; and the outcome is the same under any two constraint sets, so
/// no constraint is ever consulted on a skip.
pub proof fn lemma_skip_yields_null(
    sc1: StringConstraints,
    sc2: StringConstraints,
    title: Option<Seq<char>>,
    descr: Seq<char>,
    label: Seq<char>,
    evs: Seq<Event>,
)
    requires
        evs.len() > 0,
        evs[0] matches Event::Text(s) && s@.len() == 0,
    ensures
        interp_ask_text(sc1, true, title, descr, label, None, evs)
            == (Step::<Option<Seq<char>>>::Done(None), evs.drop_first()),
        interp_ask_text(sc1, true, title, descr, label, None, evs)
            == interp_ask_text(sc2, true, title, descr, label, None, evs),
{
}

/// Skip idempotence for numeric fields: an empty answer resolves to a
/// skip under any two bound sets alike, so neither parsing nor the bounds
/// are ever consulted on a skip.
pub proof fn lemma_skip_yields_null_numeric<T: TraitIntBounds>(
    c1: IntConstraints<T>,
    c2: IntConstraints<T>,
    title: Option<Seq<char>>,
    descr: Seq<char>,
    label: Seq<char>,
    evs: Seq<Event>,
)
    requires
        evs.len() > 0,
        evs[0] matches Event::Text(s) && s@.len() == 0,
    ensures
        interp_ask_number::<T>(c1, true, title, descr, label, None, evs)
            == (Step::<Option<int>>::Done(None), evs.drop_first()),
        interp_ask_number::<T>(c1, true, title, descr, label, None, evs)
            == interp_ask_number::<T>(c2, true, title, descr, label, None, evs),
{
}

/// First-match-wins: when entry `i` is the first if-condition whose
/// trigger equals the selection, scanning the whole list resolves exactly
/// as firing entry `i` does; entries after `i` are never consulted.
pub proof fn lemma_first_match_wins(
    list: Seq<IfCondition>,
    at_root: bool,
    selected: ValModel,
    quiet: bool,
    evs: Seq<Event>,
    root: Map<Seq<char>, ValModel>,
    i: int,
)
    requires
        0 <= i < list.len(),
        list[i].picked.model() == selected,
        forall|j: int| 0 <= j < i ==> #[trigger] list[j].picked.model() != selected,
    ensures
        interp_cond_list(list, at_root, selected, quiet, evs, root) == ({
            let (st, e2, r2) = interp_field_list(
                list[i].fields@, quiet, false, at_root, Seq::empty(), evs, root,
            );
            (
                match st {
                    Step::Done(entries) => Step::<Option<ValModel>>::Done(
                        if at_root { None } else { Some(ValModel::Object(entries)) },
                    ),
                    Step::Need(q) => Step::<Option<ValModel>>::Need(q),
                    Step::Fail(er) => Step::<Option<ValModel>>::Fail(er),
                },
                e2,
                r2,
            )
        }),
    decreases i,
{
    if i > 0 {
        assert(list[0].picked.model() != selected);
        lemma_first_match_wins(list.drop_first(), at_root, selected, quiet, evs, root, i - 1);
        assert(list.drop_first()[i - 1] == list[i]);
    }
}

} // verus!
