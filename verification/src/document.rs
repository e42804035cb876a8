//! The wire document model.
//!
//! The transport collaborator exchanges structured documents with the server.
//! The conversation only ever reads and writes a handful of fixed keys and
//! plain value shapes, so the model holds exactly those: ordered key/value
//! pairs with unordered-key, insertion-stable semantics (the first binding of
//! a key wins).

use vstd::prelude::*;

verus! {

/// The document keys the conversation reads or writes.
#[derive(Clone, Copy, Debug, PartialEq, Eq, Structural)]
pub enum FieldKey {
    SaslStart,
    SaslContinue,
    AutoAuthorize,
    Mechanism,
    Payload,
    ConversationId,
    Done,
}

/// A field value: the plain shapes the conversation reads and writes.
#[derive(Clone, Debug)]
pub enum Value {
    Int(i32),
    Bool(bool),
    Str(String),
    Bin(Vec<u8>),
}

/// Spec-level shape of a `Value`.
pub enum ValueView {
    Int(i32),
    Bool(bool),
    Str(Seq<char>),
    Bin(Seq<u8>),
}

impl View for Value {
    type V = ValueView;

    open spec fn view(&self) -> ValueView {
        match self {
            Value::Int(i) => ValueView::Int(*i),
            Value::Bool(b) => ValueView::Bool(*b),
            Value::Str(s) => ValueView::Str(s@),
            Value::Bin(v) => ValueView::Bin(v@),
        }
    }
}

/// A command or reply document.
#[derive(Clone, Debug)]
pub struct Document {
    pub fields: Vec<(FieldKey, Value)>,
}

impl View for Document {
    type V = Seq<(FieldKey, ValueView)>;

    open spec fn view(&self) -> Seq<(FieldKey, ValueView)> {
        self.fields@.map_values(|p: (FieldKey, Value)| (p.0, p.1@))
    }
}

/// The first value bound to `key`, if any.
pub open spec fn lookup(doc: Seq<(FieldKey, ValueView)>, key: FieldKey) -> Option<ValueView>
    decreases doc.len(),
{
    if doc.len() == 0 {
        None
    } else if doc[0].0 == key {
        Some(doc[0].1)
    } else {
        lookup(doc.drop_first(), key)
    }
}

/// A copy of a value, with the same view.
pub fn clone_value(v: &Value) -> (r: Value)
    ensures
        r@ == v@,
{
    match v {
        Value::Int(i) => Value::Int(*i),
        Value::Bool(b) => Value::Bool(*b),
        Value::Str(s) => Value::Str(s.clone()),
        Value::Bin(bytes) => Value::Bin(vstd::slice::slice_to_vec(bytes.as_slice())),
    }
}

impl Document {
    /// A document with no fields.
    pub fn new() -> (r: Document)
        ensures
            r@ == Seq::<(FieldKey, ValueView)>::empty(),
    {
        let d = Document { fields: Vec::new() };
        proof {
            assert(d@ =~= Seq::<(FieldKey, ValueView)>::empty());
        }
        d
    }

    /// Appends a field.
    pub fn push(&mut self, key: FieldKey, value: Value)
        ensures
            final(self)@ == old(self)@.push((key, value@)),
    {
        let ghost prev = self@;
        let ghost v = value@;
        self.fields.push((key, value));
        proof {
            assert(self@ =~= prev.push((key, v)));
        }
    }

    /// The first value bound to `key`, if any.
    pub fn get(&self, key: FieldKey) -> (r: Option<&Value>)
        ensures
            match r {
                Some(v) => lookup(self@, key) == Some(v@),
                None => lookup(self@, key) is None,
            },
    {
        let n = self.fields.len();
        let mut i: usize = 0;
        proof {
            assert(self@.skip(0) =~= self@);
        }
        while i < n
            invariant
                n == self.fields.len(),
                0 <= i <= n,
                lookup(self@, key) == lookup(self@.skip(i as int), key),
            decreases n - i,
        {
            proof {
                assert(self@.skip(i as int).drop_first() =~= self@.skip(i as int + 1));
            }
            if self.fields[i].0 == key {
                return Some(&self.fields[i].1);
            }
            i += 1;
        }
        proof {
            assert(self@.skip(n as int) =~= Seq::<(FieldKey, ValueView)>::empty());
        }
        None
    }
}

} // verus!
