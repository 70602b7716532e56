//! The runtime value model: a closed tagged union of the kinds of value a
//! script can manipulate. A `Function` is a quotation, an immutable sequence
//! of captured tokens; a `BuiltinFunction` pairs a unique name with a native
//! operation of the engine, and is compared and modelled by its name alone.

use vstd::prelude::*;

use crate::error::Error;
use crate::interpreter::{Interpreter, spec_builtin, step_matches};
use crate::scanner::{Token, TokenV, tokens_view};

verus! {

/// Placeholder reference into a value heap. No execution path of the core
/// produces one; the variant exists as an extension point.
#[derive(Debug, Clone, Copy, Hash, PartialEq, Eq, Structural)]
pub struct HeapPointer(pub usize);

/// Placeholder reference to a user-defined structure facility that the core
/// does not implement.
#[derive(Debug, Clone, Copy, Hash, PartialEq, Eq, Structural)]
pub struct StructDefinitionIndex(pub usize);

/// The kind tag of a value, used in type-error diagnostics.
#[derive(Debug, Clone, Copy, Hash, PartialEq, Eq, Structural)]
pub enum ValueType {
    Boolean,
    Index,
    Integer,
    Pointer,
    Function,
    BuiltinFunction,
    UserDefined,
}

/// The native operations the engine can dispatch to. Each is registered in
/// the root namespace under a unique name before any script runs.
///
/// The set is closed: a native operation is a member of this enum, not an
/// arbitrary host function, so that what each operation does to the engine
/// can be stated and proved once, in `spec_builtin`. Registration still
/// binds name/operation pairs through the engine's interface; extending the
/// operation library means adding a variant here and its case to the
/// engine's dispatch, never handing the engine code it cannot be held to.
#[derive(Debug, Clone, Copy, Hash, PartialEq, Eq, Structural)]
pub enum BuiltinOp {
    /// Pop the top value and discard it.
    Drop,
    /// Pop the top value and push it back twice.
    Dup,
    /// Push a copy of the second value from the top.
    Over,
    /// Exchange the two topmost values.
    Swap,
    /// Rotate the third value from the top to the top.
    Rot,
    /// Pop two integers and push their checked sum.
    Add,
    /// Pop two integers and push their checked product.
    Mul,
    /// Pop two values and push whether they are equal.
    Eq,
    /// Pop two integers and push whether the lower is less than the upper.
    Lt,
    /// Push the boolean constant `true`.
    True,
    /// Push the boolean constant `false`.
    False,
    /// Pop a boolean and push its negation.
    Not,
    /// Pop two booleans and push their conjunction.
    And,
    /// Pop two booleans and push their disjunction.
    Or,
    /// Pop a value and execute it.
    Exec,
    /// Pop a boolean and arm the skip flag when it is false.
    If,
    /// Pop a boolean and fail unless it is true.
    Assert,
    /// Leave the state unchanged; a host may print the top of the stack,
    /// which is its business, not engine state.
    DbgShow,
}

/// A native operation bound into the namespace: a unique name paired with the
/// operation the engine runs for it. Equality is by name only.
#[derive(Debug)]
pub struct BuiltinFunction {
    name: String,
    op: BuiltinOp,
}

/// A runtime value.
#[derive(Debug)]
pub enum Value {
    Boolean(bool),
    Index(usize),
    Integer(u64),
    Pointer(HeapPointer),
    Function(Vec<Token>),
    BuiltinFunction(BuiltinFunction),
    UserDefined(StructDefinitionIndex),
}

/// Mathematical model of a value. A builtin is modelled by its name together
/// with the operation the engine dispatches for it.
#[verifier::ext_equal]
pub enum ValueV {
    Boolean(bool),
    Index(usize),
    Integer(u64),
    Pointer(HeapPointer),
    Function(Seq<TokenV>),
    BuiltinFunction(Seq<char>, BuiltinOp),
    UserDefined(StructDefinitionIndex),
}

impl View for Value {
    type V = ValueV;

    open spec fn view(&self) -> ValueV {
        match self {
            Value::Boolean(b) => ValueV::Boolean(*b),
            Value::Index(i) => ValueV::Index(*i),
            Value::Integer(n) => ValueV::Integer(*n),
            Value::Pointer(p) => ValueV::Pointer(*p),
            Value::Function(ts) => ValueV::Function(tokens_view(ts@)),
            Value::BuiltinFunction(bf) => ValueV::BuiltinFunction(bf.spec_name(), bf.spec_op()),
            Value::UserDefined(d) => ValueV::UserDefined(*d),
        }
    }
}

impl ValueV {
    /// A value is well formed when every token it captures is a non-brace
    /// token with a non-empty name, and a builtin's name is non-empty. Values
    /// on the data stack and in the namespace stay well formed throughout
    /// execution.
    pub open spec fn wf(self) -> bool {
        match self {
            ValueV::Function(ts) => forall|i: int| 0 <= i < ts.len() ==> (#[trigger] ts[i]).inner_wf(),
            ValueV::BuiltinFunction(name, op) => name.len() > 0,
            _ => true,
        }
    }

    /// The kind tag of a value.
    pub open spec fn type_of(self) -> ValueType {
        match self {
            ValueV::Boolean(_) => ValueType::Boolean,
            ValueV::Index(_) => ValueType::Index,
            ValueV::Integer(_) => ValueType::Integer,
            ValueV::Pointer(_) => ValueType::Pointer,
            ValueV::Function(_) => ValueType::Function,
            ValueV::BuiltinFunction(_, _) => ValueType::BuiltinFunction,
            ValueV::UserDefined(_) => ValueType::UserDefined,
        }
    }
}

/// The model of a sequence of values, e.g. the data stack.
pub open spec fn values_view(s: Seq<Value>) -> Seq<ValueV> {
    s.map_values(|v: Value| v@)
}

/// Value equality as scripts observe it: builtins compare by name only, every
/// other kind compares by content; values of different kinds never compare
/// equal.
pub open spec fn value_v_eq(a: ValueV, b: ValueV) -> bool {
    match (a, b) {
        (ValueV::Boolean(x), ValueV::Boolean(y)) => x == y,
        (ValueV::Index(x), ValueV::Index(y)) => x == y,
        (ValueV::Integer(x), ValueV::Integer(y)) => x == y,
        (ValueV::Pointer(x), ValueV::Pointer(y)) => x == y,
        (ValueV::Function(x), ValueV::Function(y)) => x == y,
        (ValueV::BuiltinFunction(x, _), ValueV::BuiltinFunction(y, _)) => x == y,
        (ValueV::UserDefined(x), ValueV::UserDefined(y)) => x == y,
        _ => false,
    }
}

impl BuiltinFunction {
    /// Pair a unique `name` with the native operation `op`.
    pub(crate) fn new(name: &str, op: BuiltinOp) -> (r: Self)
        ensures
            r.spec_name() == name@,
            r.spec_op() == op,
    {
        BuiltinFunction { name: name.to_owned(), op }
    }

    /// The name under which this operation is registered.
    pub fn name(&self) -> (r: String)
        ensures
            r@ == self.spec_name(),
    {
        self.name.clone()
    }

    /// The name of this builtin, as the model sees it.
    pub closed spec fn spec_name(&self) -> Seq<char> {
        self.name@
    }

    /// The operation the engine dispatches for this builtin.
    pub closed spec fn spec_op(&self) -> BuiltinOp {
        self.op
    }

    pub(crate) fn op(&self) -> (r: BuiltinOp)
        ensures
            r == self.spec_op(),
    {
        self.op
    }

    /// Invoke the native operation on the engine, with the access the engine
    /// grants builtins: the data stack, value execution and the skip flag.
    pub fn call(&self, interp: &mut Interpreter) -> (r: Result<(), Error>)
        requires
            old(interp).wf(),
        ensures
            final(interp).wf(),
            step_matches(final(interp)@, r, spec_builtin(old(interp)@, self.spec_op())),
    {
        interp.run_op(self.op())
    }
}

impl Clone for BuiltinFunction {
    /// A cloned builtin equals the original.
    fn clone(&self) -> (r: Self)
        ensures
            r == *self,
    {
        BuiltinFunction { name: self.name.clone(), op: self.op }
    }
}

impl Clone for Value {
    /// A cloned value has the same model as the original.
    fn clone(&self) -> (r: Self)
        ensures
            r@ == self@,
    {
        match self {
            Value::Boolean(b) => Value::Boolean(*b),
            Value::Index(i) => Value::Index(*i),
            Value::Integer(n) => Value::Integer(*n),
            Value::Pointer(p) => Value::Pointer(*p),
            Value::Function(ts) => {
                let ts2 = ts.clone();
                proof {
                    assert(ts2@ =~= ts@);
                    assert(tokens_view(ts2@) =~= tokens_view(ts@));
                }
                Value::Function(ts2)
            },
            Value::BuiltinFunction(bf) => Value::BuiltinFunction(bf.clone()),
            Value::UserDefined(d) => Value::UserDefined(*d),
        }
    }
}

impl Value {
    /// The kind tag of this value.
    pub fn type_(&self) -> (r: ValueType)
        ensures
            r == self@.type_of(),
    {
        match self {
            Value::Boolean(_) => ValueType::Boolean,
            Value::Index(_) => ValueType::Index,
            Value::Integer(_) => ValueType::Integer,
            Value::Pointer(_) => ValueType::Pointer,
            Value::Function(_) => ValueType::Function,
            Value::BuiltinFunction(_) => ValueType::BuiltinFunction,
            Value::UserDefined(_) => ValueType::UserDefined,
        }
    }
}

/// Whether two token sequences carry the same content.
fn token_seq_eq(a: &Vec<Token>, b: &Vec<Token>) -> (r: bool)
    ensures
        r == (tokens_view(a@) == tokens_view(b@)),
{
    if a.len() != b.len() {
        proof {
            assert(tokens_view(a@).len() != tokens_view(b@).len());
        }
        return false;
    }
    let n = a.len();
    let mut i: usize = 0;
    while i < n
        invariant
            i <= n,
            n == a@.len() == b@.len(),
            forall|j: int| 0 <= j < i ==> a@[j]@ == b@[j]@,
        decreases n - i,
    {
        if !crate::scanner::token_eq(&a[i], &b[i]) {
            proof {
                assert(tokens_view(a@)[i as int] != tokens_view(b@)[i as int]);
            }
            return false;
        }
        i = i + 1;
    }
    proof {
        assert(tokens_view(a@) =~= tokens_view(b@));
    }
    true
}

/// Value equality as scripts observe it, e.g. through the `eq` builtin.
pub fn value_eq(a: &Value, b: &Value) -> (r: bool)
    ensures
        r == value_v_eq(a@, b@),
{
    match (a, b) {
        (Value::Boolean(x), Value::Boolean(y)) => *x == *y,
        (Value::Index(x), Value::Index(y)) => *x == *y,
        (Value::Integer(x), Value::Integer(y)) => *x == *y,
        (Value::Pointer(x), Value::Pointer(y)) => x.0 == y.0,
        (Value::Function(x), Value::Function(y)) => token_seq_eq(x, y),
        (Value::BuiltinFunction(x), Value::BuiltinFunction(y)) => x.name() == y.name(),
        (Value::UserDefined(x), Value::UserDefined(y)) => x.0 == y.0,
        _ => false,
    }
}

/// One field of a user-defined structure layout.
pub struct UserStructMetaField {
    pub name: String,
    pub size: usize,
    pub ttag: ValueType,
}

/// Layout of a user-defined structure: an ordered list of named fields.
pub struct UserStructMeta {
    pub fields: Vec<UserStructMetaField>,
}

/// Total size, in bytes, of the fields of `fields` up to `n`.
pub open spec fn spec_fields_size(fields: Seq<UserStructMetaField>, n: int) -> int
    decreases n,
{
    if n <= 0 {
        0
    } else {
        spec_fields_size(fields, n - 1) + fields[n - 1].size
    }
}

impl UserStructMeta {
    /// Size, in bytes: the sum of the sizes of the fields.
    pub fn size(&self) -> (r: usize)
        requires
            spec_fields_size(self.fields@, self.fields@.len() as int) <= usize::MAX,
        ensures
            r == spec_fields_size(self.fields@, self.fields@.len() as int),
    {
        let mut total: usize = 0;
        let mut i: usize = 0;
        let n = self.fields.len();
        while i < n
            invariant
                i <= n,
                n == self.fields@.len(),
                total == spec_fields_size(self.fields@, i as int),
                spec_fields_size(self.fields@, n as int) <= usize::MAX,
            decreases n - i,
        {
            proof {
                lemma_fields_size_monotonic(self.fields@, i + 1, n as int);
            }
            total = total + self.fields[i].size;
            i = i + 1;
        }
        total
    }
}

/// Partial field-size sums never exceed the total: sizes are non-negative.
proof fn lemma_fields_size_monotonic(fields: Seq<UserStructMetaField>, m: int, n: int)
    requires
        0 <= m <= n,
    ensures
        spec_fields_size(fields, m) <= spec_fields_size(fields, n),
    decreases n - m,
{
    if m < n {
        lemma_fields_size_monotonic(fields, m + 1, n);
    }
}

} // verus!
