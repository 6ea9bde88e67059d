//! Field names, typed values and the visitor that reads them back.
use vstd::prelude::*;
use vstd::std_specs::cmp::PartialEqSpecImpl;
use crate::metadata::Identifier;
use crate::text::str_eq;

verus! {

/// The ordered field names that one callsite declares.
#[derive(Clone, Copy, Debug)]
pub struct FieldSet {
    names: &'static [&'static str],
    callsite: Identifier,
}

/// One declared field: a position in the [`FieldSet`] of a callsite.
///
/// Fields of different callsites are never equal, whatever their names.
#[derive(Clone, Copy, Debug)]
pub struct Field {
    i: usize,
    fields: FieldSet,
}

impl FieldSet {
    /// The declared names, in declaration order.
    pub closed spec fn names(self) -> Seq<Seq<char>> {
        Seq::new(self.names@.len(), |i: int| self.names@[i]@)
    }

    /// The callsite that declares these fields.
    pub closed spec fn spec_callsite(self) -> Identifier {
        self.callsite
    }

    /// The field at position `i` of this set.
    pub open spec fn nth(self, i: int) -> Field {
        Field::at(self, i)
    }

    /// The fields of this set in declaration order.
    pub open spec fn listing(self) -> Seq<Field> {
        Seq::new(self.names().len(), |i: int| self.nth(i))
    }

    /// A field set with the given names, declared by `callsite`.
    pub fn new(names: &'static [&'static str], callsite: Identifier) -> (set: FieldSet)
        ensures
            set.names() == Seq::new(names@.len(), |i: int| names@[i]@),
            set.spec_callsite() == callsite,
    {
        FieldSet { names, callsite }
    }

    /// The callsite that declares these fields.
    pub fn callsite(&self) -> (id: Identifier)
        ensures
            id == self.spec_callsite(),
    {
        self.callsite
    }

    /// Number of declared fields.
    pub fn len(&self) -> (n: usize)
        ensures
            n == self.names().len(),
    {
        self.names.len()
    }

    /// Whether no field is declared.
    pub fn is_empty(&self) -> (r: bool)
        ensures
            r == (self.names().len() == 0),
    {
        self.names.len() == 0
    }

    /// Looks a field up by name with a linear scan. Where a name is declared
    /// more than once, the first declaration is found.
    pub fn field(&self, name: &str) -> (found: Option<Field>)
        ensures
            match found {
                Some(f) => {
                    &&& f.set() == *self
                    &&& 0 <= f.index() < self.names().len()
                    &&& self.names()[f.index()] == name@
                    &&& forall|j: int| 0 <= j < f.index() ==> self.names()[j] != name@
                },
                None => forall|j: int| 0 <= j < self.names().len() ==> self.names()[j] != name@,
            },
    {
        let mut i: usize = 0;
        while i < self.names.len()
            invariant
                i <= self.names@.len(),
                forall|j: int| 0 <= j < i ==> self.names()[j] != name@,
            decreases self.names@.len() - i,
        {
            if str_eq(self.names[i], name) {
                return Some(Field { i, fields: *self });
            }
            i += 1;
        }
        None
    }

    /// Whether `field` was declared by this set's callsite.
    pub fn contains(&self, field: &Field) -> (r: bool)
        ensures
            r == (field.set().spec_callsite() == self.spec_callsite()),
    {
        field.fields.callsite == self.callsite
    }

    /// The declared fields, in declaration order.
    pub fn iter(&self) -> (all: Vec<Field>)
        ensures
            all@ == self.listing(),
    {
        let mut all: Vec<Field> = Vec::new();
        let mut i: usize = 0;
        while i < self.names.len()
            invariant
                i <= self.names@.len(),
                all@.len() == i,
                forall|j: int| 0 <= j < i ==> all@[j] == self.nth(j),
            decreases self.names@.len() - i,
        {
            all.push(Field { i, fields: *self });
            i += 1;
        }
        assert(all@ =~= self.listing());
        all
    }
}

impl Field {
    #[verifier::type_invariant]
    closed spec fn in_range(self) -> bool {
        self.i < self.fields.names@.len()
    }

    /// The field at position `i` of `set`.
    pub closed spec fn at(set: FieldSet, i: int) -> Field {
        Field { i: i as usize, fields: set }
    }

    /// Position of the field in its set.
    pub closed spec fn index(self) -> int {
        self.i as int
    }

    /// The set that declares the field.
    pub closed spec fn set(self) -> FieldSet {
        self.fields
    }

    /// The declared name of the field.
    pub open spec fn spec_name(self) -> Seq<char> {
        self.set().names()[self.index()]
    }

    /// The callsite that declares the field.
    pub fn callsite(&self) -> (id: Identifier)
        ensures
            id == self.set().spec_callsite(),
    {
        self.fields.callsite
    }

    /// The declared name of the field.
    pub fn name(&self) -> (name: &'static str)
        ensures
            name@ == self.spec_name(),
            0 <= self.index() < self.set().names().len(),
    {
        proof {
            use_type_invariant(self);
        }
        self.fields.names[self.i]
    }
}

impl PartialEq for Field {
    fn eq(&self, other: &Field) -> (r: bool) {
        self.fields.callsite == other.fields.callsite && self.i == other.i
    }
}

impl PartialEqSpecImpl for Field {
    open spec fn obeys_eq_spec() -> bool {
        true
    }

    open spec fn eq_spec(&self, other: &Field) -> bool {
        self.set().spec_callsite() == other.set().spec_callsite() && self.index() == other.index()
    }
}

/// What a [`Value`] holds, as a mathematical value.
pub enum Payload {
    Bool(bool),
    I64(int),
    U64(nat),
    /// A floating-point number: the bits of its IEEE 754 binary64 form, and
    /// the text that its debug form rendered.
    F64(nat, Seq<char>),
    Str(Seq<char>),
    /// The text that a display adapter rendered.
    Display(Seq<char>),
    /// The text that a debug adapter rendered.
    Debug(Seq<char>),
    /// The message of an error.
    Error(Seq<char>),
}

/// A typed payload recorded for a field. Text is borrowed from the recording
/// scope, so a value cannot outlive the callback that reads it.
#[derive(Clone, Copy, Debug)]
pub enum Value<'a> {
    Bool(bool),
    I64(i64),
    U64(u64),
    /// A floating-point number: the bits of its IEEE 754 binary64 form, and
    /// the text that its debug form rendered.
    F64(u64, &'a str),
    Str(&'a str),
    /// The text that a display adapter rendered.
    Display(&'a str),
    /// The text that a debug adapter rendered.
    Debug(&'a str),
    /// The message of an error.
    Error(&'a str),
}

impl<'a> View for Value<'a> {
    type V = Payload;

    open spec fn view(&self) -> Payload {
        match *self {
            Value::Bool(b) => Payload::Bool(b),
            Value::I64(n) => Payload::I64(n as int),
            Value::U64(n) => Payload::U64(n as nat),
            Value::F64(bits, text) => Payload::F64(bits as nat, text@),
            Value::Str(s) => Payload::Str(s@),
            Value::Display(s) => Payload::Display(s@),
            Value::Debug(s) => Payload::Debug(s@),
            Value::Error(s) => Payload::Error(s@),
        }
    }
}

/// Reads values back out of a [`ValueSet`], one call per recorded value.
///
/// `seen` is the visitor's account of the calls it has received so far, oldest
/// first; every method appends exactly one entry to it. The typed methods
/// forward to [`Visit::record_value`] unless an implementation overrides them.
pub trait Visit {
    /// The invariant of the visitor: every method expects and restores it.
    /// A visitor that states none is always in order.
    open spec fn valid(&self) -> bool {
        true
    }

    /// The values received so far, oldest first. An implementation that
    /// keeps no account of its own has nothing to show here.
    open spec fn seen(&self) -> Seq<(Field, Payload)> {
        Seq::empty()
    }

    /// Visits a value of any type.
    fn record_value(&mut self, field: &Field, value: &Value<'_>)
        requires
            old(self).valid(),
        ensures
            final(self).valid(),
            final(self).seen() == old(self).seen().push((*field, value@)),
    ;

    /// Visits a boolean.
    fn record_bool(&mut self, field: &Field, value: bool)
        requires
            old(self).valid(),
        ensures
            final(self).valid(),
            final(self).seen() == old(self).seen().push((*field, Payload::Bool(value))),
    {
        self.record_value(field, &Value::Bool(value))
    }

    /// Visits a signed integer.
    fn record_i64(&mut self, field: &Field, value: i64)
        requires
            old(self).valid(),
        ensures
            final(self).valid(),
            final(self).seen() == old(self).seen().push((*field, Payload::I64(value as int))),
    {
        self.record_value(field, &Value::I64(value))
    }

    /// Visits an unsigned integer.
    fn record_u64(&mut self, field: &Field, value: u64)
        requires
            old(self).valid(),
        ensures
            final(self).valid(),
            final(self).seen() == old(self).seen().push((*field, Payload::U64(value as nat))),
    {
        self.record_value(field, &Value::U64(value))
    }

    /// Visits a floating-point number, given by its bits and the text of its
    /// debug form.
    fn record_f64(&mut self, field: &Field, bits: u64, text: &str)
        requires
            old(self).valid(),
        ensures
            final(self).valid(),
            final(self).seen() == old(self).seen().push(
                (*field, Payload::F64(bits as nat, text@)),
            ),
    {
        self.record_value(field, &Value::F64(bits, text))
    }

    /// Visits a string slice.
    fn record_str(&mut self, field: &Field, value: &str)
        requires
            old(self).valid(),
        ensures
            final(self).valid(),
            final(self).seen() == old(self).seen().push((*field, Payload::Str(value@))),
    {
        self.record_value(field, &Value::Str(value))
    }

    /// Visits the text of a debug adapter.
    fn record_debug(&mut self, field: &Field, value: &str)
        requires
            old(self).valid(),
        ensures
            final(self).valid(),
            final(self).seen() == old(self).seen().push((*field, Payload::Debug(value@))),
    {
        self.record_value(field, &Value::Debug(value))
    }

    /// Visits the message of an error.
    fn record_error(&mut self, field: &Field, value: &str)
        requires
            old(self).valid(),
        ensures
            final(self).valid(),
            final(self).seen() == old(self).seen().push((*field, Payload::Error(value@))),
    {
        self.record_value(field, &Value::Error(value))
    }
}

/// Values paired with the fields they belong to. Fields that no entry pairs
/// with a value remain unset.
#[derive(Clone, Copy, Debug)]
pub struct ValueSet<'a> {
    values: &'a [(Field, Option<Value<'a>>)],
    fields: FieldSet,
}

impl<'a> ValueSet<'a> {
    /// The entries as they were handed over, each a field and what was
    /// recorded for it.
    pub closed spec fn entries(self) -> Seq<(Field, Option<Payload>)> {
        Seq::new(
            self.values@.len(),
            |k: int|
                (
                    self.values@[k].0,
                    match self.values@[k].1 {
                        Some(v) => Some(v@),
                        None => None,
                    },
                ),
        )
    }

    /// The field set that the values belong to.
    pub closed spec fn field_set(self) -> FieldSet {
        self.fields
    }

    /// Whether entry `k` carries a value for a field of this set's callsite.
    pub open spec fn is_set(self, k: int) -> bool {
        &&& 0 <= k < self.entries().len()
        &&& self.entries()[k].0.set().spec_callsite() == self.field_set().spec_callsite()
        &&& self.entries()[k].1 is Some
    }

    /// The values among the first `n` entries that are set for the field at
    /// position `i`, in entry order.
    pub open spec fn picks(self, i: int, n: int) -> Seq<(Field, Payload)>
        decreases n,
    {
        if n <= 0 {
            Seq::empty()
        } else if self.is_set(n - 1) && self.entries()[n - 1].0.index() == i {
            self.picks(i, n - 1).push((self.entries()[n - 1].0, self.entries()[n - 1].1->0))
        } else {
            self.picks(i, n - 1)
        }
    }

    /// What a visitor receives for the first `i` declared fields: field by
    /// field in declaration order, and for one field in entry order.
    pub open spec fn recorded_upto(self, i: int) -> Seq<(Field, Payload)>
        decreases i,
    {
        if i <= 0 {
            Seq::empty()
        } else {
            self.recorded_upto(i - 1) + self.picks(i - 1, self.entries().len() as int)
        }
    }

    /// Whether a value is set for `field`.
    pub open spec fn holds(self, field: Field) -> bool {
        &&& field.set().spec_callsite() == self.field_set().spec_callsite()
        &&& exists|k: int| #[trigger] self.is_set(k) && self.entries()[k].0.index() == field.index()
    }

    /// Whether no value is set at all.
    pub open spec fn holds_nothing(self) -> bool {
        forall|k: int| !#[trigger] self.is_set(k)
    }

    /// What a visitor receives from [`ValueSet::record`].
    pub open spec fn recorded(self) -> Seq<(Field, Payload)> {
        self.recorded_upto(self.field_set().names().len() as int)
    }

    /// Pairs `values` with the fields of `fields`.
    pub fn new(fields: FieldSet, values: &'a [(Field, Option<Value<'a>>)]) -> (set: ValueSet<'a>)
        ensures
            set.field_set() == fields,
            set.entries() == Seq::new(
                values@.len(),
                |k: int|
                    (
                        values@[k].0,
                        match values@[k].1 {
                            Some(v) => Some(v@),
                            None => None,
                        },
                    ),
            ),
    {
        ValueSet { values, fields }
    }

    /// The callsite whose fields these values belong to.
    pub fn callsite(&self) -> (id: Identifier)
        ensures
            id == self.field_set().spec_callsite(),
    {
        self.fields.callsite
    }

    /// Hands every set value to `visitor`, in the declaration order of the
    /// field set.
    pub fn record<V: Visit>(&self, visitor: &mut V)
        requires
            old(visitor).valid(),
        ensures
            final(visitor).valid(),
            final(visitor).seen() == old(visitor).seen() + self.recorded(),
    {
        let n = self.fields.len();
        let mut i: usize = 0;
        assert(visitor.seen() =~= old(visitor).seen() + self.recorded_upto(0));
        while i < n
            invariant
                n == self.field_set().names().len(),
                i <= n,
                visitor.valid(),
                visitor.seen() == old(visitor).seen() + self.recorded_upto(i as int),
            decreases n - i,
        {
            let ghost before = visitor.seen();
            let mut k: usize = 0;
            assert(visitor.seen() =~= before + self.picks(i as int, 0));
            while k < self.values.len()
                invariant
                    k <= self.values@.len(),
                    self.values@.len() == self.entries().len(),
                    visitor.valid(),
                    visitor.seen() == before + self.picks(i as int, k as int),
                decreases self.values@.len() - k,
            {
                let field = self.values[k].0;
                let ghost prior = visitor.seen();
                if field.fields.callsite == self.fields.callsite && field.i == i {
                    match self.values[k].1 {
                        Some(value) => {
                            dispatch(visitor, &field, &value);
                            assert(visitor.seen() =~= before + self.picks(i as int, k + 1));
                        },
                        None => {},
                    }
                }
                k += 1;
            }
            assert(visitor.seen() =~= old(visitor).seen() + self.recorded_upto(i + 1));
            i += 1;
        }
    }

    /// Whether a value is set for `field`.
    pub fn contains(&self, field: &Field) -> (r: bool)
        ensures
            r == self.holds(*field),
    {
        if field.fields.callsite != self.fields.callsite {
            return false;
        }
        let mut k: usize = 0;
        while k < self.values.len()
            invariant
                k <= self.values@.len(),
                self.values@.len() == self.entries().len(),
                field.set().spec_callsite() == self.field_set().spec_callsite(),
                forall|j: int|
                    0 <= j < k ==> !(#[trigger] self.is_set(j) && self.entries()[j].0.index()
                        == field.index()),
            decreases self.values@.len() - k,
        {
            let key = self.values[k].0;
            if key.fields.callsite == field.fields.callsite && key.i == field.i
                && self.values[k].1.is_some() {
                assert(self.is_set(k as int));
                return true;
            }
            k += 1;
        }
        false
    }

    /// Whether no value is set.
    pub fn is_empty(&self) -> (r: bool)
        ensures
            r == self.holds_nothing(),
    {
        let mut k: usize = 0;
        while k < self.values.len()
            invariant
                k <= self.values@.len(),
                self.values@.len() == self.entries().len(),
                forall|j: int| 0 <= j < k ==> !#[trigger] self.is_set(j),
            decreases self.values@.len() - k,
        {
            if self.values[k].1.is_some() && self.values[k].0.fields.callsite
                == self.fields.callsite {
                assert(self.is_set(k as int));
                return false;
            }
            k += 1;
        }
        true
    }
}

/// Calls the method of `visitor` that matches the type of `value`.
pub fn dispatch<V: Visit>(visitor: &mut V, field: &Field, value: &Value<'_>)
    requires
        old(visitor).valid(),
    ensures
        final(visitor).valid(),
        final(visitor).seen() == old(visitor).seen().push((*field, value@)),
{
    match *value {
        Value::Bool(b) => visitor.record_bool(field, b),
        Value::I64(n) => visitor.record_i64(field, n),
        Value::U64(n) => visitor.record_u64(field, n),
        Value::F64(bits, text) => visitor.record_f64(field, bits, text),
        Value::Str(s) => visitor.record_str(field, s),
        Value::Display(_) => visitor.record_value(field, value),
        Value::Debug(s) => visitor.record_debug(field, s),
        Value::Error(s) => visitor.record_error(field, s),
    }
}

} // verus!
