use vstd::prelude::*;

verus! {

broadcast use vstd::std_specs::vec::group_vec_axioms, vstd::seq::axiom_seq_index_decreases;

/// A structured value: the uniform representation used both for constants
/// declared in a schema (selectable options, trigger values) and for every
/// collected answer, so that heterogeneous field kinds can assemble into one
/// result document.
#[derive(Debug)]
pub enum Value {
    Null,
    Bool(bool),
    Num(i128),
    Text(String),
    Array(Vec<Value>),
    Object(Vec<(String, Value)>),
}

/// The mathematical model of a `Value`: numbers become unbounded integers,
/// strings become character sequences, and the compound forms become
/// sequences of models.
pub enum ValModel {
    Null,
    Bool(bool),
    Num(int),
    Text(Seq<char>),
    Array(Seq<ValModel>),
    Object(Seq<(Seq<char>, ValModel)>),
}

impl Value {
    pub open spec fn model(self) -> ValModel
        decreases self,
    {
        match self {
            Value::Null => ValModel::Null,
            Value::Bool(b) => ValModel::Bool(b),
            Value::Num(n) => ValModel::Num(n as int),
            Value::Text(s) => ValModel::Text(s@),
            Value::Array(items) => ValModel::Array(
                Seq::new(items@.len(), |i: int| if 0 <= i < items@.len() {
                    items@[i].model()
                } else {
                    ValModel::Null
                }),
            ),
            Value::Object(entries) => ValModel::Object(
                Seq::new(entries@.len(), |i: int| if 0 <= i < entries@.len() {
                    (entries@[i].0@, entries@[i].1.model())
                } else {
                    (Seq::empty(), ValModel::Null)
                }),
            ),
        }
    }
}

/// Structural equality of two values, decided executably: true exactly when
/// the mathematical models coincide.
pub fn value_eq(a: &Value, b: &Value) -> (r: bool)
    ensures
        r == (a.model() == b.model()),
    decreases *a,
{
    match (a, b) {
        (Value::Null, Value::Null) => true,
        (Value::Bool(x), Value::Bool(y)) => x == y,
        (Value::Num(x), Value::Num(y)) => x == y,
        (Value::Text(x), Value::Text(y)) => *x == *y,
        (Value::Array(xs), Value::Array(ys)) => {
            if xs.len() != ys.len() {
                assert(a.model() != b.model()) by {
                    assert(a.model() matches ValModel::Array(s) && s.len() == xs@.len());
                    assert(b.model() matches ValModel::Array(s) && s.len() == ys@.len());
                }
                return false;
            }
            let mut i: usize = 0;
            while i < xs.len()
                invariant
                    i <= xs.len(),
                    xs@.len() == ys@.len(),
                    a == Value::Array(*xs),
                    b == Value::Array(*ys),
                    forall|j: int| 0 <= j < i ==> xs@[j].model() == ys@[j].model(),
                decreases xs.len() - i,
            {
                if !value_eq(&xs[i], &ys[i]) {
                    assert(a.model() != b.model()) by {
                        let am = a.model();
                        let bm = b.model();
                        assert(am matches ValModel::Array(s) && s[i as int] == xs@[i as int].model());
                        assert(bm matches ValModel::Array(s) && s[i as int] == ys@[i as int].model());
                    }
                    return false;
                }
                i += 1;
            }
            assert(a.model() matches ValModel::Array(s) && b.model() matches ValModel::Array(t)
                && s =~= t);
            true
        }
        (Value::Object(xs), Value::Object(ys)) => {
            if xs.len() != ys.len() {
                assert(a.model() != b.model()) by {
                    assert(a.model() matches ValModel::Object(s) && s.len() == xs@.len());
                    assert(b.model() matches ValModel::Object(s) && s.len() == ys@.len());
                }
                return false;
            }
            let mut i: usize = 0;
            while i < xs.len()
                invariant
                    i <= xs.len(),
                    xs@.len() == ys@.len(),
                    a == Value::Object(*xs),
                    b == Value::Object(*ys),
                    forall|j: int| 0 <= j < i ==> xs@[j].0@ == ys@[j].0@
                        && xs@[j].1.model() == ys@[j].1.model(),
                decreases xs.len() - i,
            {
                let keys_equal = xs[i].0 == ys[i].0;
                if !keys_equal {
                    assert(a.model() != b.model()) by {
                        let am = a.model();
                        let bm = b.model();
                        assert(am matches ValModel::Object(s) && s[i as int].0 == xs@[i as int].0@);
                        assert(bm matches ValModel::Object(s) && s[i as int].0 == ys@[i as int].0@);
                    }
                    return false;
                }
                if !value_eq(&xs[i].1, &ys[i].1) {
                    assert(a.model() != b.model()) by {
                        let am = a.model();
                        let bm = b.model();
                        assert(am matches ValModel::Object(s) && s[i as int].1 == xs@[i as int].1.model());
                        assert(bm matches ValModel::Object(s) && s[i as int].1 == ys@[i as int].1.model());
                    }
                    return false;
                }
                i += 1;
            }
            assert(a.model() matches ValModel::Object(s) && b.model() matches ValModel::Object(t)
                && s =~= t);
            true
        }
        _ => false,
    }
}

/// The character for one decimal digit.
pub open spec fn digit_char(d: int) -> char {
    if d == 0 { '0' }
    else if d == 1 { '1' }
    else if d == 2 { '2' }
    else if d == 3 { '3' }
    else if d == 4 { '4' }
    else if d == 5 { '5' }
    else if d == 6 { '6' }
    else if d == 7 { '7' }
    else if d == 8 { '8' }
    else { '9' }
}

/// The decimal digit string of a natural number, most significant digit first.
pub open spec fn dec_digits(n: nat) -> Seq<char>
    decreases n,
{
    if n < 10 {
        seq![digit_char(n as int)]
    } else {
        dec_digits(n / 10).push(digit_char((n % 10) as int))
    }
}

/// The decimal rendering of an integer, with a leading minus sign when negative.
pub open spec fn dec_model(n: int) -> Seq<char> {
    if n >= 0 {
        dec_digits(n as nat)
    } else {
        seq!['-'] + dec_digits((-n) as nat)
    }
}

fn push_digit(s: &mut String, d: u128)
    requires
        d < 10,
    ensures
        final(s)@ == old(s)@.push(digit_char(d as int)),
{
    if d == 0 { proof { reveal_strlit("0"); } s.append("0"); }
    else if d == 1 { proof { reveal_strlit("1"); } s.append("1"); }
    else if d == 2 { proof { reveal_strlit("2"); } s.append("2"); }
    else if d == 3 { proof { reveal_strlit("3"); } s.append("3"); }
    else if d == 4 { proof { reveal_strlit("4"); } s.append("4"); }
    else if d == 5 { proof { reveal_strlit("5"); } s.append("5"); }
    else if d == 6 { proof { reveal_strlit("6"); } s.append("6"); }
    else if d == 7 { proof { reveal_strlit("7"); } s.append("7"); }
    else if d == 8 { proof { reveal_strlit("8"); } s.append("8"); }
    else { proof { reveal_strlit("9"); } s.append("9"); }
    assert(final(s)@ =~= old(s)@.push(digit_char(d as int)));
}

fn format_nat(n: u128) -> (r: String)
    ensures
        r@ == dec_digits(n as nat),
    decreases n,
{
    if n < 10 {
        let mut s = String::new();
        push_digit(&mut s, n);
        assert(s@ =~= dec_digits(n as nat));
        s
    } else {
        let mut s = format_nat(n / 10);
        assert(n / 10 == (n as nat) / 10) by (nonlinear_arith);
        assert(n % 10 == (n as nat) % 10) by (nonlinear_arith);
        push_digit(&mut s, n % 10);
        s
    }
}

/// Renders an integer in decimal, exactly as `dec_model` describes.
pub fn format_int(n: i128) -> (r: String)
    ensures
        r@ == dec_model(n as int),
{
    if n >= 0 {
        format_nat(n as u128)
    } else {
        let mag: u128 = ((-(n + 1)) as u128) + 1;
        assert(mag as int == -(n as int));
        let mut s = String::new();
        proof { reveal_strlit("-"); }
        s.append("-");
        assert(s@ =~= seq!['-']);
        let digits = format_nat(mag);
        let out = s.concat(digits.as_str());
        out
    }
}

impl Value {
    /// A deep copy with the same model.
    pub fn duplicate(&self) -> (r: Value)
        ensures
            r.model() == self.model(),
    {
        clone_value(self)
    }
}

fn clone_value(a: &Value) -> (r: Value)
    ensures
        r.model() == a.model(),
    decreases *a,
{
    match (a, a) {
        (Value::Null, _) => Value::Null,
        (Value::Bool(b), _) => Value::Bool(*b),
        (Value::Num(n), _) => Value::Num(*n),
        (Value::Text(s), _) => Value::Text(s.clone()),
        (Value::Array(items), _) => {
            let mut out: Vec<Value> = Vec::new();
            let mut i: usize = 0;
            while i < items.len()
                invariant
                    i <= items.len(),
                    a == Value::Array(*items),
                    out@.len() == i,
                    forall|j: int| 0 <= j < i ==> out@[j].model() == items@[j].model(),
                decreases items.len() - i,
            {
                proof {
                    assert(a.model() matches ValModel::Array(s)
                        && s[i as int] == items@[i as int].model());
                }
                let item = clone_value(&items[i]);
                out.push(item);
                i += 1;
            }
            let r = Value::Array(out);
            proof {
                assert(r.model() matches ValModel::Array(s)
                    && a.model() matches ValModel::Array(t) && s =~= t);
            }
            r
        }
        (Value::Object(entries), _) => {
            let mut out: Vec<(String, Value)> = Vec::new();
            let mut i: usize = 0;
            while i < entries.len()
                invariant
                    i <= entries.len(),
                    a == Value::Object(*entries),
                    out@.len() == i,
                    forall|j: int| 0 <= j < i ==> out@[j].0@ == entries@[j].0@
                        && out@[j].1.model() == entries@[j].1.model(),
                decreases entries.len() - i,
            {
                proof {
                    assert(a.model() matches ValModel::Object(s)
                        && s[i as int].1 == entries@[i as int].1.model());
                }
                let key = entries[i].0.clone();
                let item = clone_value(&entries[i].1);
                out.push((key, item));
                i += 1;
            }
            let r = Value::Object(out);
            proof {
                assert(r.model() matches ValModel::Object(s)
                    && a.model() matches ValModel::Object(t) && s =~= t);
            }
            r
        }
    }
}

pub open spec fn is_digit(c: char) -> bool {
    '0' as u32 <= c as u32 <= '9' as u32
}

pub open spec fn digit_val(c: char) -> int {
    c as u32 as int - '0' as u32 as int
}

pub open spec fn all_digits(s: Seq<char>) -> bool {
    forall|i: int| 0 <= i < s.len() ==> is_digit(#[trigger] s[i])
}

/// The integer a digit string denotes, most significant digit first.
pub open spec fn digits_val(s: Seq<char>) -> int
    decreases s.len(),
{
    if s.len() == 0 {
        0
    } else {
        digits_val(s.drop_last()) * 10 + digit_val(s.last())
    }
}

pub open spec fn pow10(n: nat) -> int
    decreases n,
{
    if n == 0 {
        1
    } else {
        10 * pow10((n - 1) as nat)
    }
}

/// What a piece of text denotes as an integer confined to `[lo, hi]`:
/// an optional sign, then at least one decimal digit, denoting a value
/// within the bounds; anything else does not parse.
pub open spec fn parse_model(s: Seq<char>, lo: int, hi: int) -> Option<int> {
    let neg = s.len() > 0 && s[0] == '-';
    let ds = if s.len() > 0 && (s[0] == '-' || s[0] == '+') {
        s.drop_first()
    } else {
        s
    };
    if ds.len() == 0 || !all_digits(ds) {
        None
    } else {
        let v = if neg { -digits_val(ds) } else { digits_val(ds) };
        if lo <= v <= hi {
            Some(v)
        } else {
            None
        }
    }
}

proof fn lemma_digits_val_nonneg(s: Seq<char>)
    requires
        all_digits(s),
    ensures
        digits_val(s) >= 0,
    decreases s.len(),
{
    if s.len() > 0 {
        assert(all_digits(s.drop_last()));
        lemma_digits_val_nonneg(s.drop_last());
    }
}

proof fn lemma_pow10_pos(n: nat)
    ensures
        pow10(n) >= 1,
    decreases n,
{
    if n > 0 {
        lemma_pow10_pos((n - 1) as nat);
    }
}

proof fn lemma_digits_split(p: Seq<char>, rest: Seq<char>)
    ensures
        digits_val(p + rest) == digits_val(p) * pow10(rest.len()) + digits_val(rest),
    decreases rest.len(),
{
    if rest.len() == 0 {
        assert(p + rest =~= p);
    } else {
        lemma_digits_split(p, rest.drop_last());
        assert((p + rest).drop_last() =~= p + rest.drop_last());
        assert((p + rest).last() == rest.last());
        let n1 = (rest.len() - 1) as nat;
        assert(pow10(rest.len()) == 10 * pow10(n1));
        assert((digits_val(p) * pow10(n1) + digits_val(rest.drop_last())) * 10
            == digits_val(p) * (10 * pow10(n1)) + digits_val(rest.drop_last()) * 10)
            by (nonlinear_arith);
    }
}

/// A digit string is worth at least any of its prefixes.
proof fn lemma_digits_prefix(s: Seq<char>, n: int)
    requires
        all_digits(s),
        0 <= n <= s.len(),
    ensures
        digits_val(s) >= digits_val(s.subrange(0, n)),
{
    let p = s.subrange(0, n);
    let rest = s.subrange(n, s.len() as int);
    assert(s =~= p + rest);
    lemma_digits_split(p, rest);
    assert(all_digits(rest));
    assert(all_digits(p));
    lemma_digits_val_nonneg(rest);
    lemma_digits_val_nonneg(p);
    lemma_pow10_pos(rest.len());
    assert(digits_val(p) * pow10(rest.len()) >= digits_val(p)) by (nonlinear_arith)
        requires digits_val(p) >= 0 && pow10(rest.len()) >= 1;
}

/// Parses decimal text into an integer confined to `[lo, hi]`, exactly as
/// `parse_model` describes.
pub fn parse_int_text(s: &str, lo: i128, hi: i128) -> (r: Option<i128>)
    requires
        lo <= 0 <= hi,
    ensures
        match r {
            Some(v) => parse_model(s@, lo as int, hi as int) == Some(v as int),
            None => parse_model(s@, lo as int, hi as int) is None,
        },
{
    let len = s.unicode_len();
    if len == 0 {
        return None;
    }
    let first = s.get_char(0);
    let neg = first == '-';
    let has_sign = neg || first == '+';
    let start: usize = if has_sign { 1 } else { 0 };
    if start == len {
        return None;
    }
    let ghost ds = if has_sign { s@.drop_first() } else { s@ };
    proof {
        assert(ds =~= s@.subrange(start as int, len as int));
    }
    let limit: u128 = if neg {
        if lo == 0 {
            0
        } else {
            ((-(lo + 1)) as u128) + 1
        }
    } else {
        hi as u128
    };
    let mut acc: u128 = 0;
    let mut i: usize = start;
    while i < len
        invariant
            start <= i <= len,
            len == s@.len(),
            start == 0 || start == 1,
            start == 1 ==> (s@[0] == '-' || s@[0] == '+'),
            neg <==> (s@.len() > 0 && s@[0] == '-'),
            start == 1 <==> (s@.len() > 0 && (s@[0] == '-' || s@[0] == '+')),
            lo <= 0 <= hi,
            ds == s@.subrange(start as int, len as int),
            ds == if s@.len() > 0 && (s@[0] == '-' || s@[0] == '+') {
                s@.drop_first()
            } else {
                s@
            },
            ds.len() > 0,
            limit as int == if neg { -(lo as int) } else { hi as int },
            all_digits(s@.subrange(start as int, i as int)),
            acc as int == digits_val(s@.subrange(start as int, i as int)),
            acc <= limit,
        decreases len - i,
    {
        let c = s.get_char(i);
        let cv = c as u32;
        if cv < '0' as u32 || cv > '9' as u32 {
            proof {
                assert(ds[i - start] == s@[i as int]);
                assert(!is_digit(ds[i - start]));
            }
            return None;
        }
        let d: u128 = (cv - '0' as u32) as u128;
        let ghost prev = s@.subrange(start as int, i as int);
        let ghost cur = s@.subrange(start as int, i + 1);
        proof {
            assert(cur.drop_last() =~= prev);
            assert(cur.last() == s@[i as int]);
        }
        if d > limit || acc > (limit - d) / 10 {
            proof {
                assert(digits_val(cur) == acc as int * 10 + d);
                if d <= limit {
                    assert(acc as int > (limit as int - d) / 10);
                    assert(acc as int * 10 > limit as int - d) by (nonlinear_arith)
                        requires acc as int > (limit as int - d) / 10 && limit as int - d >= 0;
                }
                assert(digits_val(cur) > limit as int);
                assert(cur =~= ds.subrange(0, i + 1 - start));
                if all_digits(ds) {
                    lemma_digits_prefix(ds, i + 1 - start);
                    assert(digits_val(ds) > limit as int);
                    if neg {
                        assert(-digits_val(ds) < lo as int);
                    } else {
                        assert(digits_val(ds) > hi as int);
                    }
                }
            }
            return None;
        }
        proof {
            assert(acc as int * 10 + d <= limit as int) by (nonlinear_arith)
                requires acc as int <= (limit as int - d) / 10 && limit as int - d >= 0 && d >= 0;
            assert(digits_val(cur) == acc as int * 10 + d);
        }
        acc = acc * 10 + d;
        i += 1;
    }
    proof {
        assert(s@.subrange(start as int, len as int) =~= ds);
        assert(acc as int == digits_val(ds));
        assert(all_digits(ds));
        lemma_digits_val_nonneg(ds);
    }
    if neg {
        if acc == 0 {
            Some(0)
        } else {
            let v: i128 = (-((acc - 1) as i128)) - 1;
            assert(v as int == -(acc as int));
            Some(v)
        }
    } else {
        let v: i128 = acc as i128;
        Some(v)
    }
}

/// A machine integer kind usable as a numeric field: it knows its
/// representable bounds and converts to and from a wide working integer.
pub trait TraitIntBounds: Sized + Copy {
    /// The least representable value.
    spec fn lo() -> int;

    /// The greatest representable value.
    spec fn hi() -> int;

    /// The integer this value denotes.
    spec fn as_int(self) -> int;

    proof fn bounds_ok()
        ensures
            Self::lo() <= 0 <= Self::hi(),
            i128::MIN as int <= Self::lo(),
            Self::hi() <= i128::MAX as int,
    ;

    proof fn in_range(self)
        ensures
            Self::lo() <= self.as_int() <= Self::hi(),
    ;

    fn max() -> (r: Self)
        ensures
            r.as_int() == Self::hi(),
    ;

    fn min() -> (r: Self)
        ensures
            r.as_int() == Self::lo(),
    ;

    fn to_wide(self) -> (r: i128)
        ensures
            r as int == self.as_int(),
    ;

    fn from_wide(w: i128) -> (r: Self)
        requires
            Self::lo() <= w as int <= Self::hi(),
        ensures
            r.as_int() == w as int,
    ;

    fn le(self, other: Self) -> (r: bool)
        ensures
            r == (self.as_int() <= other.as_int()),
    ;
}

impl TraitIntBounds for u8 {
    open spec fn lo() -> int { u8::MIN as int }
    open spec fn hi() -> int { u8::MAX as int }
    open spec fn as_int(self) -> int { self as int }
    proof fn bounds_ok() {}
    proof fn in_range(self) {}
    fn max() -> Self { u8::MAX }
    fn min() -> Self { u8::MIN }
    fn to_wide(self) -> i128 { self as i128 }
    fn from_wide(w: i128) -> Self { w as u8 }
    fn le(self, other: Self) -> bool { self <= other }
}

impl TraitIntBounds for u16 {
    open spec fn lo() -> int { u16::MIN as int }
    open spec fn hi() -> int { u16::MAX as int }
    open spec fn as_int(self) -> int { self as int }
    proof fn bounds_ok() {}
    proof fn in_range(self) {}
    fn max() -> Self { u16::MAX }
    fn min() -> Self { u16::MIN }
    fn to_wide(self) -> i128 { self as i128 }
    fn from_wide(w: i128) -> Self { w as u16 }
    fn le(self, other: Self) -> bool { self <= other }
}

impl TraitIntBounds for u32 {
    open spec fn lo() -> int { u32::MIN as int }
    open spec fn hi() -> int { u32::MAX as int }
    open spec fn as_int(self) -> int { self as int }
    proof fn bounds_ok() {}
    proof fn in_range(self) {}
    fn max() -> Self { u32::MAX }
    fn min() -> Self { u32::MIN }
    fn to_wide(self) -> i128 { self as i128 }
    fn from_wide(w: i128) -> Self { w as u32 }
    fn le(self, other: Self) -> bool { self <= other }
}

impl TraitIntBounds for u64 {
    open spec fn lo() -> int { u64::MIN as int }
    open spec fn hi() -> int { u64::MAX as int }
    open spec fn as_int(self) -> int { self as int }
    proof fn bounds_ok() {}
    proof fn in_range(self) {}
    fn max() -> Self { u64::MAX }
    fn min() -> Self { u64::MIN }
    fn to_wide(self) -> i128 { self as i128 }
    fn from_wide(w: i128) -> Self { w as u64 }
    fn le(self, other: Self) -> bool { self <= other }
}

impl TraitIntBounds for i8 {
    open spec fn lo() -> int { i8::MIN as int }
    open spec fn hi() -> int { i8::MAX as int }
    open spec fn as_int(self) -> int { self as int }
    proof fn bounds_ok() {}
    proof fn in_range(self) {}
    fn max() -> Self { i8::MAX }
    fn min() -> Self { i8::MIN }
    fn to_wide(self) -> i128 { self as i128 }
    fn from_wide(w: i128) -> Self { w as i8 }
    fn le(self, other: Self) -> bool { self <= other }
}

impl TraitIntBounds for i16 {
    open spec fn lo() -> int { i16::MIN as int }
    open spec fn hi() -> int { i16::MAX as int }
    open spec fn as_int(self) -> int { self as int }
    proof fn bounds_ok() {}
    proof fn in_range(self) {}
    fn max() -> Self { i16::MAX }
    fn min() -> Self { i16::MIN }
    fn to_wide(self) -> i128 { self as i128 }
    fn from_wide(w: i128) -> Self { w as i16 }
    fn le(self, other: Self) -> bool { self <= other }
}

impl TraitIntBounds for i32 {
    open spec fn lo() -> int { i32::MIN as int }
    open spec fn hi() -> int { i32::MAX as int }
    open spec fn as_int(self) -> int { self as int }
    proof fn bounds_ok() {}
    proof fn in_range(self) {}
    fn max() -> Self { i32::MAX }
    fn min() -> Self { i32::MIN }
    fn to_wide(self) -> i128 { self as i128 }
    fn from_wide(w: i128) -> Self { w as i32 }
    fn le(self, other: Self) -> bool { self <= other }
}

impl TraitIntBounds for i64 {
    open spec fn lo() -> int { i64::MIN as int }
    open spec fn hi() -> int { i64::MAX as int }
    open spec fn as_int(self) -> int { self as int }
    proof fn bounds_ok() {}
    proof fn in_range(self) {}
    fn max() -> Self { i64::MAX }
    fn min() -> Self { i64::MIN }
    fn to_wide(self) -> i128 { self as i128 }
    fn from_wide(w: i128) -> Self { w as i64 }
    fn le(self, other: Self) -> bool { self <= other }
}

/// Turns an already-validated answer into a typed number: an empty answer
/// counts as a skip exactly when skipping is allowed; any other accepted
/// answer must denote a representable value.
pub fn maybe_parse_value<T: TraitIntBounds>(can_skip: bool, input: String) -> (r: Option<T>)
    requires
        (can_skip && input@.len() == 0)
            || parse_model(input@, T::lo(), T::hi()) is Some,
    ensures
        r is None <==> (can_skip && input@.len() == 0),
        r matches Some(v) ==> parse_model(input@, T::lo(), T::hi()) == Some(v.as_int()),
{
    if can_skip && input.as_str().unicode_len() == 0 {
        None
    } else {
        proof {
            T::bounds_ok();
        }
        let lo = T::min().to_wide();
        let hi = T::max().to_wide();
        match parse_int_text(input.as_str(), lo, hi) {
            Some(w) => Some(T::from_wide(w)),
            None => {
                proof {
                    assert(false);
                }
                None
            }
        }
    }
}

/// How one value is shown as a line of a selection menu.
///
/// Scalars render to their natural text; compound values render to a
/// fixed bracketed tag, since a menu line cannot usefully show them whole.
pub open spec fn display_model(v: ValModel) -> Seq<char> {
    match v {
        ValModel::Null => seq!['n', 'u', 'l', 'l'],
        ValModel::Bool(b) => if b { seq!['t', 'r', 'u', 'e'] } else {
            seq!['f', 'a', 'l', 's', 'e']
        },
        ValModel::Num(n) => dec_model(n),
        ValModel::Text(s) => s,
        ValModel::Array(_) => seq!['[', 'a', 'r', 'r', 'a', 'y', ']'],
        ValModel::Object(_) => seq!['[', 'o', 'b', 'j', 'e', 'c', 't', ']'],
    }
}

/// The menu line for a value.
pub fn display_value(v: &Value) -> (r: String)
    ensures
        r@ == display_model(v.model()),
{
    match v {
        Value::Null => {
            let s = String::new();
            proof { reveal_strlit("null"); }
            let r = s.concat("null");
            assert(r@ =~= display_model(v.model()));
            r
        }
        Value::Bool(b) => {
            let s = String::new();
            if *b {
                proof { reveal_strlit("true"); }
                let r = s.concat("true");
                assert(r@ =~= display_model(v.model()));
                r
            } else {
                proof { reveal_strlit("false"); }
                let r = s.concat("false");
                assert(r@ =~= display_model(v.model()));
                r
            }
        }
        Value::Num(n) => format_int(*n),
        Value::Text(s) => s.clone(),
        Value::Array(_) => {
            let s = String::new();
            proof { reveal_strlit("[array]"); }
            let r = s.concat("[array]");
            assert(r@ =~= display_model(v.model()));
            r
        }
        Value::Object(_) => {
            let s = String::new();
            proof { reveal_strlit("[object]"); }
            let r = s.concat("[object]");
            assert(r@ =~= display_model(v.model()));
            r
        }
    }
}

} // verus!
