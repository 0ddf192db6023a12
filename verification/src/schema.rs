//! The value model: property type taxonomy, single and vector property
//! values, nonce-guarded vector operations, schemas, and the validators
//! that check declarations and values against the configured limits.

use vstd::prelude::*;
use vstd::std_specs::cmp::PartialEqSpec;
use crate::config::InputValidationLengthConstraint;
use crate::errors::Error;
use crate::permissions::EntityAccessLevel;
use crate::ClassId;
use crate::EntityId;
use crate::Nonce;
use crate::PropertyId;
use crate::TextMaxLength;
use crate::VecMaxLength;

verus! {

// ---------------------------------------------------------------------------
// Property types
// ---------------------------------------------------------------------------

/// The inner type of a property: a scalar, a length-bounded text, or a
/// reference to entities of a class.  A reference carries the
/// `same_controller` flag: when set, referring and referenced entity must
/// share a controller and the reference counts into the same-owner counter.
#[derive(Clone, Copy, Debug, PartialEq, Eq, Structural)]
pub enum Type {
    Bool,
    Uint16,
    Uint32,
    Uint64,
    Int16,
    Int32,
    Int64,
    Text(TextMaxLength),
    Reference(ClassId, bool),
}

/// A bounded vector of an inner type.
#[derive(Clone, Copy, Debug, PartialEq, Eq, Structural)]
pub struct VecPropertyType {
    pub vec_type: Type,
    pub max_length: VecMaxLength,
}

/// The declared type of a property: a single value or a bounded vector.
#[derive(Clone, Copy, Debug, PartialEq, Eq, Structural)]
pub enum PropertyType {
    Single(Type),
    Vector(VecPropertyType),
}

impl PropertyType {
    /// The scalar type underneath, through one level of vector.
    pub open spec fn spec_inner_type(self) -> Type {
        match self {
            PropertyType::Single(t) => t,
            PropertyType::Vector(vt) => vt.vec_type,
        }
    }

    pub fn get_inner_type(&self) -> (r: Type)
        ensures
            r == self.spec_inner_type(),
    {
        match self {
            PropertyType::Single(t) => *t,
            PropertyType::Vector(vt) => vt.vec_type,
        }
    }

    /// Whether the property is a reference with the `same_controller` flag set.
    pub open spec fn spec_same_controller(self) -> bool {
        match self.spec_inner_type() {
            Type::Reference(_, same_controller) => same_controller,
            _ => false,
        }
    }

    pub fn same_controller_status(&self) -> (r: bool)
        ensures
            r == self.spec_same_controller(),
    {
        match self.get_inner_type() {
            Type::Reference(_, same_controller) => same_controller,
            _ => false,
        }
    }

    /// The class a reference property points to, if it is one.
    pub open spec fn spec_referenced_class_id(self) -> Option<ClassId> {
        match self.spec_inner_type() {
            Type::Reference(class_id, _) => Some(class_id),
            _ => None,
        }
    }

    pub fn get_referenced_class_id(&self) -> (r: Option<ClassId>)
        ensures
            r == self.spec_referenced_class_id(),
    {
        match self.get_inner_type() {
            Type::Reference(class_id, _) => Some(class_id),
            _ => None,
        }
    }
}

// ---------------------------------------------------------------------------
// Values
// ---------------------------------------------------------------------------

/// A single property value.
#[derive(Clone, Debug, PartialEq, Eq)]
pub enum Value {
    Bool(bool),
    Uint16(u16),
    Uint32(u32),
    Uint64(u64),
    Int16(i16),
    Int32(i32),
    Int64(i64),
    Text(Vec<u8>),
    Reference(EntityId),
}

/// Structural equality of single values; texts compare by contents.
pub open spec fn val_eq(a: Value, b: Value) -> bool {
    match (a, b) {
        (Value::Bool(x), Value::Bool(y)) => x == y,
        (Value::Uint16(x), Value::Uint16(y)) => x == y,
        (Value::Uint32(x), Value::Uint32(y)) => x == y,
        (Value::Uint64(x), Value::Uint64(y)) => x == y,
        (Value::Int16(x), Value::Int16(y)) => x == y,
        (Value::Int32(x), Value::Int32(y)) => x == y,
        (Value::Int64(x), Value::Int64(y)) => x == y,
        (Value::Text(x), Value::Text(y)) => x@ == y@,
        (Value::Reference(x), Value::Reference(y)) => x == y,
        _ => false,
    }
}

impl Value {
    /// The default value staged for an omitted optional property.
    pub fn default_value() -> (r: Value)
        ensures
            r == Value::Bool(false),
    {
        Value::Bool(false)
    }

    /// Whether this value is the staged default of an omitted property.
    pub open spec fn spec_is_default(self) -> bool {
        val_eq(self, Value::Bool(false))
    }

    pub fn is_default(&self) -> (r: bool)
        ensures
            r == self.spec_is_default(),
    {
        match self {
            Value::Bool(b) => !*b,
            _ => false,
        }
    }

    /// The entity this value references, if it is a reference.
    pub open spec fn spec_involved_entity(self) -> Option<EntityId> {
        match self {
            Value::Reference(id) => Some(id),
            _ => None,
        }
    }

    pub fn get_involved_entity(&self) -> (r: Option<EntityId>)
        ensures
            r == self.spec_involved_entity(),
    {
        match self {
            Value::Reference(id) => Some(*id),
            _ => None,
        }
    }

    pub fn equals(&self, other: &Value) -> (r: bool)
        ensures
            r == val_eq(*self, *other),
    {
        match (self, other) {
            (Value::Bool(x), Value::Bool(y)) => x == y,
            (Value::Uint16(x), Value::Uint16(y)) => x == y,
            (Value::Uint32(x), Value::Uint32(y)) => x == y,
            (Value::Uint64(x), Value::Uint64(y)) => x == y,
            (Value::Int16(x), Value::Int16(y)) => x == y,
            (Value::Int32(x), Value::Int32(y)) => x == y,
            (Value::Int64(x), Value::Int64(y)) => x == y,
            (Value::Text(x), Value::Text(y)) => {
                let r = x == y;
                proof {
                    if x@ == y@ {
                        assert(x.eq_spec(y));
                    }
                    if r {
                        assert(x@ =~= y@);
                    }
                }
                r
            },
            (Value::Reference(x), Value::Reference(y)) => x == y,
            _ => false,
        }
    }
}

/// A typed vector of values.
#[derive(Clone, Debug, PartialEq, Eq)]
pub enum VecValue {
    Bool(Vec<bool>),
    Uint16(Vec<u16>),
    Uint32(Vec<u32>),
    Uint64(Vec<u64>),
    Int16(Vec<i16>),
    Int32(Vec<i32>),
    Int64(Vec<i64>),
    Text(Vec<Vec<u8>>),
    Reference(Vec<EntityId>),
}

/// Structural equality of vector values; arms must agree, texts compare by
/// contents.
pub open spec fn vec_val_eq(a: VecValue, b: VecValue) -> bool {
    match (a, b) {
        (VecValue::Bool(x), VecValue::Bool(y)) => x@ == y@,
        (VecValue::Uint16(x), VecValue::Uint16(y)) => x@ == y@,
        (VecValue::Uint32(x), VecValue::Uint32(y)) => x@ == y@,
        (VecValue::Uint64(x), VecValue::Uint64(y)) => x@ == y@,
        (VecValue::Int16(x), VecValue::Int16(y)) => x@ == y@,
        (VecValue::Int32(x), VecValue::Int32(y)) => x@ == y@,
        (VecValue::Int64(x), VecValue::Int64(y)) => x@ == y@,
        (VecValue::Text(x), VecValue::Text(y)) => x@.map_values(|t: Vec<u8>| t@) == y@.map_values(
            |t: Vec<u8>| t@,
        ),
        (VecValue::Reference(x), VecValue::Reference(y)) => x@ == y@,
        _ => false,
    }
}

impl VecValue {
    /// The elements, each wrapped as a single value.
    pub open spec fn elems(self) -> Seq<Value> {
        match self {
            VecValue::Bool(v) => v@.map_values(|x: bool| Value::Bool(x)),
            VecValue::Uint16(v) => v@.map_values(|x: u16| Value::Uint16(x)),
            VecValue::Uint32(v) => v@.map_values(|x: u32| Value::Uint32(x)),
            VecValue::Uint64(v) => v@.map_values(|x: u64| Value::Uint64(x)),
            VecValue::Int16(v) => v@.map_values(|x: i16| Value::Int16(x)),
            VecValue::Int32(v) => v@.map_values(|x: i32| Value::Int32(x)),
            VecValue::Int64(v) => v@.map_values(|x: i64| Value::Int64(x)),
            VecValue::Text(v) => v@.map_values(|x: Vec<u8>| Value::Text(x)),
            VecValue::Reference(v) => v@.map_values(|x: u64| Value::Reference(x)),
        }
    }

    /// Whether a single value fits this vector's element kind.
    pub open spec fn spec_accepts(self, x: Value) -> bool {
        match (self, x) {
            (VecValue::Bool(_), Value::Bool(_)) => true,
            (VecValue::Uint16(_), Value::Uint16(_)) => true,
            (VecValue::Uint32(_), Value::Uint32(_)) => true,
            (VecValue::Uint64(_), Value::Uint64(_)) => true,
            (VecValue::Int16(_), Value::Int16(_)) => true,
            (VecValue::Int32(_), Value::Int32(_)) => true,
            (VecValue::Int64(_), Value::Int64(_)) => true,
            (VecValue::Text(_), Value::Text(_)) => true,
            (VecValue::Reference(_), Value::Reference(_)) => true,
            _ => false,
        }
    }

    pub fn accepts(&self, x: &Value) -> (r: bool)
        ensures
            r == self.spec_accepts(*x),
    {
        match (self, x) {
            (VecValue::Bool(_), Value::Bool(_)) => true,
            (VecValue::Uint16(_), Value::Uint16(_)) => true,
            (VecValue::Uint32(_), Value::Uint32(_)) => true,
            (VecValue::Uint64(_), Value::Uint64(_)) => true,
            (VecValue::Int16(_), Value::Int16(_)) => true,
            (VecValue::Int32(_), Value::Int32(_)) => true,
            (VecValue::Int64(_), Value::Int64(_)) => true,
            (VecValue::Text(_), Value::Text(_)) => true,
            (VecValue::Reference(_), Value::Reference(_)) => true,
            _ => false,
        }
    }

    pub fn len(&self) -> (r: usize)
        ensures
            r == self.elems().len(),
    {
        match self {
            VecValue::Bool(v) => v.len(),
            VecValue::Uint16(v) => v.len(),
            VecValue::Uint32(v) => v.len(),
            VecValue::Uint64(v) => v.len(),
            VecValue::Int16(v) => v.len(),
            VecValue::Int32(v) => v.len(),
            VecValue::Int64(v) => v.len(),
            VecValue::Text(v) => v.len(),
            VecValue::Reference(v) => v.len(),
        }
    }

    /// The referenced entity ids, when this is a reference vector.
    pub open spec fn spec_involved_entities(self) -> Option<Seq<EntityId>> {
        match self {
            VecValue::Reference(v) => Some(v@),
            _ => None,
        }
    }

    pub fn get_involved_entities(&self) -> (r: Option<Vec<EntityId>>)
        ensures
            match r {
                Some(ids) => self.spec_involved_entities() == Some(ids@),
                None => self.spec_involved_entities() is None,
            },
    {
        match self {
            VecValue::Reference(v) => {
                let n = v.len();
                let mut ids: Vec<EntityId> = Vec::new();
                let mut i: usize = 0;
                while i < n
                    invariant
                        n == v.len(),
                        i <= n,
                        ids@ == v@.subrange(0, i as int),
                    decreases n - i,
                {
                    ids.push(v[i]);
                    proof {
                        assert(ids@ =~= v@.subrange(0, i + 1 as int));
                    }
                    i += 1;
                }
                proof {
                    assert(ids@ =~= v@);
                }
                Some(ids)
            },
            _ => None,
        }
    }

    fn clear(&mut self)
        ensures
            final(self).elems() == Seq::<Value>::empty(),
            vec_val_eq(*final(self), *final(self)),
            final(self).spec_involved_entities() is Some <==> old(self).spec_involved_entities()
                is Some,
    {
        match self {
            VecValue::Bool(v) => v.clear(),
            VecValue::Uint16(v) => v.clear(),
            VecValue::Uint32(v) => v.clear(),
            VecValue::Uint64(v) => v.clear(),
            VecValue::Int16(v) => v.clear(),
            VecValue::Int32(v) => v.clear(),
            VecValue::Int64(v) => v.clear(),
            VecValue::Text(v) => v.clear(),
            VecValue::Reference(v) => v.clear(),
        }
        proof {
            assert(self.elems() =~= Seq::<Value>::empty());
        }
    }

    fn insert_at(&mut self, i: usize, x: Value)
        requires
            old(self).spec_accepts(x),
            i <= old(self).elems().len(),
            old(self).elems().len() < usize::MAX,
        ensures
            final(self).elems() == old(self).elems().insert(i as int, x),
    {
        match (&mut *self, x) {
            (VecValue::Bool(v), Value::Bool(y)) => v.insert(i, y),
            (VecValue::Uint16(v), Value::Uint16(y)) => v.insert(i, y),
            (VecValue::Uint32(v), Value::Uint32(y)) => v.insert(i, y),
            (VecValue::Uint64(v), Value::Uint64(y)) => v.insert(i, y),
            (VecValue::Int16(v), Value::Int16(y)) => v.insert(i, y),
            (VecValue::Int32(v), Value::Int32(y)) => v.insert(i, y),
            (VecValue::Int64(v), Value::Int64(y)) => v.insert(i, y),
            (VecValue::Text(v), Value::Text(y)) => v.insert(i, y),
            (VecValue::Reference(v), Value::Reference(y)) => v.insert(i, y),
            _ => {
                proof {
                    assert(false);
                }
            },
        }
        proof {
            assert(final(self).elems() =~= old(self).elems().insert(i as int, x));
        }
    }

    fn remove_at(&mut self, i: usize)
        requires
            i < old(self).elems().len(),
        ensures
            final(self).elems() == old(self).elems().remove(i as int),
    {
        match &mut *self {
            VecValue::Bool(v) => {
                v.remove(i);
            },
            VecValue::Uint16(v) => {
                v.remove(i);
            },
            VecValue::Uint32(v) => {
                v.remove(i);
            },
            VecValue::Uint64(v) => {
                v.remove(i);
            },
            VecValue::Int16(v) => {
                v.remove(i);
            },
            VecValue::Int32(v) => {
                v.remove(i);
            },
            VecValue::Int64(v) => {
                v.remove(i);
            },
            VecValue::Text(v) => {
                v.remove(i);
            },
            VecValue::Reference(v) => {
                v.remove(i);
            },
        }
        proof {
            assert(final(self).elems() =~= old(self).elems().remove(i as int));
        }
    }

    pub fn equals(&self, other: &VecValue) -> (r: bool)
        ensures
            r == vec_val_eq(*self, *other),
    {
        match (self, other) {
            (VecValue::Bool(x), VecValue::Bool(y)) => vec_eq_hint_bool(x, y),
            (VecValue::Uint16(x), VecValue::Uint16(y)) => vec_eq_hint_u16(x, y),
            (VecValue::Uint32(x), VecValue::Uint32(y)) => vec_eq_hint_u32(x, y),
            (VecValue::Uint64(x), VecValue::Uint64(y)) => vec_eq_hint_u64(x, y),
            (VecValue::Int16(x), VecValue::Int16(y)) => vec_eq_hint_i16(x, y),
            (VecValue::Int32(x), VecValue::Int32(y)) => vec_eq_hint_i32(x, y),
            (VecValue::Int64(x), VecValue::Int64(y)) => vec_eq_hint_i64(x, y),
            (VecValue::Text(x), VecValue::Text(y)) => texts_eq(x, y),
            (VecValue::Reference(x), VecValue::Reference(y)) => vec_eq_hint_u64(x, y),
            _ => false,
        }
    }
}

fn vec_eq_hint_bool(x: &Vec<bool>, y: &Vec<bool>) -> (r: bool)
    ensures
        r == (x@ == y@),
{
    let r = x == y;
    proof {
        if r {
            assert(x@ =~= y@);
        } else if x@ == y@ {
            assert(x.eq_spec(y));
        }
    }
    r
}

fn vec_eq_hint_u16(x: &Vec<u16>, y: &Vec<u16>) -> (r: bool)
    ensures
        r == (x@ == y@),
{
    let r = x == y;
    proof {
        if r {
            assert(x@ =~= y@);
        } else if x@ == y@ {
            assert(x.eq_spec(y));
        }
    }
    r
}

fn vec_eq_hint_u32(x: &Vec<u32>, y: &Vec<u32>) -> (r: bool)
    ensures
        r == (x@ == y@),
{
    let r = x == y;
    proof {
        if r {
            assert(x@ =~= y@);
        } else if x@ == y@ {
            assert(x.eq_spec(y));
        }
    }
    r
}

fn vec_eq_hint_u64(x: &Vec<u64>, y: &Vec<u64>) -> (r: bool)
    ensures
        r == (x@ == y@),
{
    let r = x == y;
    proof {
        if r {
            assert(x@ =~= y@);
        } else if x@ == y@ {
            assert(x.eq_spec(y));
        }
    }
    r
}

fn vec_eq_hint_i16(x: &Vec<i16>, y: &Vec<i16>) -> (r: bool)
    ensures
        r == (x@ == y@),
{
    let r = x == y;
    proof {
        if r {
            assert(x@ =~= y@);
        } else if x@ == y@ {
            assert(x.eq_spec(y));
        }
    }
    r
}

fn vec_eq_hint_i32(x: &Vec<i32>, y: &Vec<i32>) -> (r: bool)
    ensures
        r == (x@ == y@),
{
    let r = x == y;
    proof {
        if r {
            assert(x@ =~= y@);
        } else if x@ == y@ {
            assert(x.eq_spec(y));
        }
    }
    r
}

fn vec_eq_hint_i64(x: &Vec<i64>, y: &Vec<i64>) -> (r: bool)
    ensures
        r == (x@ == y@),
{
    let r = x == y;
    proof {
        if r {
            assert(x@ =~= y@);
        } else if x@ == y@ {
            assert(x.eq_spec(y));
        }
    }
    r
}

fn texts_eq(x: &Vec<Vec<u8>>, y: &Vec<Vec<u8>>) -> (r: bool)
    ensures
        r == (x@.map_values(|t: Vec<u8>| t@) == y@.map_values(|t: Vec<u8>| t@)),
{
    let ghost vx = x@.map_values(|t: Vec<u8>| t@);
    let ghost vy = y@.map_values(|t: Vec<u8>| t@);
    let n = x.len();
    if y.len() != n {
        proof {
            assert(vx.len() != vy.len());
        }
        return false;
    }
    let mut i: usize = 0;
    while i < n
        invariant
            n == x.len(),
            n == y.len(),
            i <= n,
            vx == x@.map_values(|t: Vec<u8>| t@),
            vy == y@.map_values(|t: Vec<u8>| t@),
            forall|j: int| 0 <= j < i ==> vx[j] == vy[j],
        decreases n - i,
    {
        let same = bytes_eq(&x[i], &y[i]);
        if !same {
            proof {
                assert(vx[i as int] == x@[i as int]@);
                assert(vy[i as int] == y@[i as int]@);
            }
            return false;
        }
        proof {
            assert(vx[i as int] == x@[i as int]@);
            assert(vy[i as int] == y@[i as int]@);
        }
        i += 1;
    }
    proof {
        assert(vx =~= vy);
    }
    true
}

/// Compares two byte strings by contents.
pub fn bytes_eq(x: &Vec<u8>, y: &Vec<u8>) -> (r: bool)
    ensures
        r == (x@ == y@),
{
    let r = x == y;
    proof {
        if r {
            assert(x@ =~= y@);
        } else if x@ == y@ {
            assert(x.eq_spec(y));
        }
    }
    r
}

// ---------------------------------------------------------------------------
// Property values
// ---------------------------------------------------------------------------

/// A single value as carried by the caller surface.
#[derive(Clone, Debug, PartialEq, Eq)]
pub struct SinglePropertyValue {
    pub value: Value,
}

impl SinglePropertyValue {
    pub fn new(value: Value) -> (r: SinglePropertyValue)
        ensures
            r.value == value,
    {
        SinglePropertyValue { value }
    }

    pub fn get_value(self) -> (r: Value)
        ensures
            r == self.value,
    {
        self.value
    }
}

/// A vector value together with its version nonce.  The nonce grows on every
/// vector-specific mutation; callers supplying a stale nonce are rejected.
#[derive(Clone, Debug, PartialEq, Eq)]
pub struct VecPropertyValue {
    pub vec_value: VecValue,
    pub nonce: Nonce,
}

impl VecPropertyValue {
    pub fn new(vec_value: VecValue, nonce: Nonce) -> (r: VecPropertyValue)
        ensures
            r.vec_value == vec_value,
            r.nonce == nonce,
    {
        VecPropertyValue { vec_value, nonce }
    }

    pub fn get_vec_value(&self) -> (r: &VecValue)
        ensures
            *r == self.vec_value,
    {
        &self.vec_value
    }

    pub fn get_nonce(&self) -> (r: Nonce)
        ensures
            r == self.nonce,
    {
        self.nonce
    }

    /// Rejects a stale nonce.
    pub fn ensure_nonce_equality(&self, nonce: Nonce) -> (r: Result<(), Error>)
        ensures
            r == if nonce == self.nonce {
                Result::<(), Error>::Ok(())
            } else {
                Result::<(), Error>::Err(Error::NonceMismatch)
            },
    {
        if nonce == self.nonce {
            Ok(())
        } else {
            Err(Error::NonceMismatch)
        }
    }

    /// Rejects an index outside the vector (for element removal).
    pub fn ensure_index_in_property_vector_is_valid(&self, index: VecMaxLength) -> (r: Result<
        (),
        Error,
    >)
        ensures
            r == if (index as int) < self.vec_value.elems().len() {
                Result::<(), Error>::Ok(())
            } else {
                Result::<(), Error>::Err(Error::IndexOutOfBounds)
            },
    {
        if (index as usize) < self.vec_value.len() {
            Ok(())
        } else {
            Err(Error::IndexOutOfBounds)
        }
    }

    /// Empties the vector and bumps the nonce.
    pub fn vec_clear(&mut self)
        requires
            old(self).nonce < Nonce::MAX,
        ensures
            final(self).vec_value.elems() == Seq::<Value>::empty(),
            final(self).nonce == old(self).nonce + 1,
    {
        self.vec_value.clear();
        self.nonce = self.nonce + 1;
    }

    /// Removes the element at `index` and bumps the nonce.
    pub fn vec_remove_at(&mut self, index: VecMaxLength)
        requires
            old(self).nonce < Nonce::MAX,
            (index as int) < old(self).vec_value.elems().len(),
        ensures
            final(self).vec_value.elems() == old(self).vec_value.elems().remove(index as int),
            final(self).nonce == old(self).nonce + 1,
    {
        self.vec_value.remove_at(index as usize);
        self.nonce = self.nonce + 1;
    }

    /// Inserts `value` at `index` and bumps the nonce.
    pub fn vec_insert_at(&mut self, index: VecMaxLength, value: Value)
        requires
            old(self).nonce < Nonce::MAX,
            old(self).vec_value.spec_accepts(value),
            index as int <= old(self).vec_value.elems().len(),
            old(self).vec_value.elems().len() < usize::MAX,
        ensures
            final(self).vec_value.elems() == old(self).vec_value.elems().insert(
                index as int,
                value,
            ),
            final(self).nonce == old(self).nonce + 1,
    {
        self.vec_value.insert_at(index as usize, value);
        self.nonce = self.nonce + 1;
    }
}

/// A property value slot of an entity: single or vector.
#[derive(Clone, Debug, PartialEq, Eq)]
pub enum PropertyValue {
    Single(SinglePropertyValue),
    Vector(VecPropertyValue),
}

/// Equality of property values as the engine compares them: structural on
/// the values, ignoring the vector nonce.
pub open spec fn pv_eq(a: PropertyValue, b: PropertyValue) -> bool {
    match (a, b) {
        (PropertyValue::Single(x), PropertyValue::Single(y)) => val_eq(x.value, y.value),
        (PropertyValue::Vector(x), PropertyValue::Vector(y)) => vec_val_eq(
            x.vec_value,
            y.vec_value,
        ),
        _ => false,
    }
}

impl PropertyValue {
    /// The default staged for an omitted optional property.
    pub fn default() -> (r: PropertyValue)
        ensures
            r == PropertyValue::Single(SinglePropertyValue { value: Value::Bool(false) }),
    {
        PropertyValue::Single(SinglePropertyValue { value: Value::Bool(false) })
    }

    /// Whether this is the default value of an omitted property.
    pub open spec fn spec_is_default(self) -> bool {
        match self {
            PropertyValue::Single(x) => x.value.spec_is_default(),
            PropertyValue::Vector(_) => false,
        }
    }

    pub fn is_default(&self) -> (r: bool)
        ensures
            r == self.spec_is_default(),
    {
        match self {
            PropertyValue::Single(x) => x.value.is_default(),
            PropertyValue::Vector(_) => false,
        }
    }

    pub fn as_vec_property_value(&self) -> (r: Option<&VecPropertyValue>)
        ensures
            match r {
                Some(v) => *self == PropertyValue::Vector(*v),
                None => self is Single,
            },
    {
        match self {
            PropertyValue::Vector(v) => Some(v),
            PropertyValue::Single(_) => None,
        }
    }

    /// The reference list this value carries: present exactly for
    /// reference-typed values, including empty reference vectors.
    pub open spec fn spec_refs_opt(self) -> Option<Seq<EntityId>> {
        match self {
            PropertyValue::Single(x) => match x.value.spec_involved_entity() {
                Some(id) => Some(seq![id]),
                None => None,
            },
            PropertyValue::Vector(v) => v.vec_value.spec_involved_entities(),
        }
    }

    /// The entities this value references; empty for non-reference values.
    pub open spec fn spec_refs(self) -> Seq<EntityId> {
        match self {
            PropertyValue::Single(x) => match x.value.spec_involved_entity() {
                Some(id) => seq![id],
                None => Seq::empty(),
            },
            PropertyValue::Vector(v) => match v.vec_value.spec_involved_entities() {
                Some(ids) => ids,
                None => Seq::empty(),
            },
        }
    }

    /// The referenced entity ids, `None` for a non-reference value.
    pub fn get_involved_entities(&self) -> (r: Option<Vec<EntityId>>)
        ensures
            match r {
                Some(ids) => self.spec_refs_opt() == Some(ids@) && ids@ == self.spec_refs(),
                None => self.spec_refs_opt() is None && self.spec_refs()
                    == Seq::<EntityId>::empty(),
            },
    {
        match self {
            PropertyValue::Single(x) => match x.value.get_involved_entity() {
                Some(id) => {
                    let mut ids: Vec<EntityId> = Vec::new();
                    ids.push(id);
                    proof {
                        assert(ids@ =~= seq![id]);
                    }
                    Some(ids)
                },
                None => {
                    proof {
                        assert(self.spec_refs() =~= Seq::<EntityId>::empty());
                    }
                    None
                },
            },
            PropertyValue::Vector(v) => match v.vec_value.get_involved_entities() {
                Some(ids) => Some(ids),
                None => {
                    proof {
                        assert(self.spec_refs() =~= Seq::<EntityId>::empty());
                    }
                    None
                },
            },
        }
    }

    pub fn equals(&self, other: &PropertyValue) -> (r: bool)
        ensures
            r == pv_eq(*self, *other),
    {
        match (self, other) {
            (PropertyValue::Single(x), PropertyValue::Single(y)) => x.value.equals(&y.value),
            (PropertyValue::Vector(x), PropertyValue::Vector(y)) => x.vec_value.equals(
                &y.vec_value,
            ),
            _ => false,
        }
    }

    /// The value `update` stores when replacing `old_value` with `new`.
    pub open spec fn spec_updated(old_value: PropertyValue, new: PropertyValue) -> PropertyValue {
        match (old_value, new) {
            (PropertyValue::Vector(o), PropertyValue::Vector(n)) => PropertyValue::Vector(
                VecPropertyValue { vec_value: n.vec_value, nonce: (o.nonce + 1) as Nonce },
            ),
            _ => new,
        }
    }

    /// Replaces this value with `new`.  When both are vectors the stored
    /// nonce advances instead of adopting the caller-supplied one, keeping
    /// the nonce monotone.
    /// The stored vector nonce, when this is a vector, has room to grow.
    pub open spec fn spec_nonce_has_room(self) -> bool {
        match self {
            PropertyValue::Vector(v) => v.nonce < Nonce::MAX,
            PropertyValue::Single(_) => true,
        }
    }

    pub fn update(&mut self, new: PropertyValue)
        requires
            old(self).spec_nonce_has_room(),
        ensures
            *final(self) == PropertyValue::spec_updated(*old(self), new),
    {
        match (&*self, new) {
            (PropertyValue::Vector(o), PropertyValue::Vector(n)) => {
                let bumped = o.nonce + 1;
                *self = PropertyValue::Vector(
                    VecPropertyValue { vec_value: n.vec_value, nonce: bumped },
                );
            },
            (_, n) => {
                *self = n;
            },
        }
    }
}

// ---------------------------------------------------------------------------
// Properties and schemas
// ---------------------------------------------------------------------------

/// A typed, flagged field declaration belonging to a class.
#[derive(Clone, Debug, PartialEq, Eq)]
pub struct Property {
    pub prop_type: PropertyType,
    /// The property must be supplied when schema support is added.
    pub required: bool,
    /// Values of this property must be pairwise distinct within one entity.
    pub unique: bool,
    pub name: Vec<u8>,
    pub description: Vec<u8>,
    /// Maintainers may not write this property.
    pub locked_from_maintainer: bool,
    /// The controller may not write this property.
    pub locked_from_controller: bool,
}

impl Property {
    /// Whether this property refuses writes from the given access level.
    pub open spec fn spec_is_locked_from(self, level: EntityAccessLevel) -> bool {
        match level {
            EntityAccessLevel::EntityController => self.locked_from_controller,
            EntityAccessLevel::EntityMaintainer => self.locked_from_maintainer,
            EntityAccessLevel::Any => self.locked_from_controller || self.locked_from_maintainer,
        }
    }

    pub fn is_locked_from(&self, level: EntityAccessLevel) -> (r: bool)
        ensures
            r == self.spec_is_locked_from(level),
    {
        match level {
            EntityAccessLevel::EntityController => self.locked_from_controller,
            EntityAccessLevel::EntityMaintainer => self.locked_from_maintainer,
            EntityAccessLevel::Any => self.locked_from_controller || self.locked_from_maintainer,
        }
    }

    pub open spec fn spec_name_valid(self, c: InputValidationLengthConstraint) -> Result<
        (),
        Error,
    > {
        c.spec_ensure_valid(self.name@.len() as int, Error::NameTooShort, Error::NameTooLong)
    }

    pub fn ensure_name_is_valid(&self, c: InputValidationLengthConstraint) -> (r: Result<
        (),
        Error,
    >)
        ensures
            r == self.spec_name_valid(c),
    {
        c.ensure_valid(self.name.len(), Error::NameTooShort, Error::NameTooLong)
    }

    pub open spec fn spec_description_valid(self, c: InputValidationLengthConstraint) -> Result<
        (),
        Error,
    > {
        c.spec_ensure_valid(
            self.description@.len() as int,
            Error::DescriptionTooShort,
            Error::DescriptionTooLong,
        )
    }

    pub fn ensure_description_is_valid(&self, c: InputValidationLengthConstraint) -> (r: Result<
        (),
        Error,
    >)
        ensures
            r == self.spec_description_valid(c),
    {
        c.ensure_valid(
            self.description.len(),
            Error::DescriptionTooShort,
            Error::DescriptionTooLong,
        )
    }

    /// Whether the declared bounds stay inside the configured ceilings.
    pub open spec fn spec_type_size_valid(
        self,
        vec_max: VecMaxLength,
        text_max: TextMaxLength,
    ) -> Result<(), Error> {
        match self.prop_type {
            PropertyType::Single(t) => spec_inner_size_valid(t, text_max),
            PropertyType::Vector(vt) => if vt.max_length > vec_max {
                Err(Error::VecTooLong)
            } else {
                spec_inner_size_valid(vt.vec_type, text_max)
            },
        }
    }

    pub fn ensure_prop_type_size_is_valid(
        &self,
        vec_max: VecMaxLength,
        text_max: TextMaxLength,
    ) -> (r: Result<(), Error>)
        ensures
            r == self.spec_type_size_valid(vec_max, text_max),
    {
        match &self.prop_type {
            PropertyType::Single(t) => inner_size_valid(*t, text_max),
            PropertyType::Vector(vt) => {
                if vt.max_length > vec_max {
                    Err(Error::VecTooLong)
                } else {
                    inner_size_valid(vt.vec_type, text_max)
                }
            },
        }
    }
}

/// Whether a declared inner type's text bound stays inside the ceiling.
pub open spec fn spec_inner_size_valid(t: Type, text_max: TextMaxLength) -> Result<(), Error> {
    match t {
        Type::Text(max) => if max > text_max {
            Err(Error::TextTooLong)
        } else {
            Ok(())
        },
        _ => Ok(()),
    }
}

fn inner_size_valid(t: Type, text_max: TextMaxLength) -> (r: Result<(), Error>)
    ensures
        r == spec_inner_size_valid(t, text_max),
{
    match t {
        Type::Text(max) => {
            if max > text_max {
                Err(Error::TextTooLong)
            } else {
                Ok(())
            }
        },
        _ => Ok(()),
    }
}

/// Whether a single value has the shape and bounds of an inner type.
/// Reference targets are checked separately against the store.
pub open spec fn spec_value_fits_inner(t: Type, v: Value) -> Result<(), Error> {
    match (t, v) {
        (Type::Bool, Value::Bool(_)) => Ok(()),
        (Type::Uint16, Value::Uint16(_)) => Ok(()),
        (Type::Uint32, Value::Uint32(_)) => Ok(()),
        (Type::Uint64, Value::Uint64(_)) => Ok(()),
        (Type::Int16, Value::Int16(_)) => Ok(()),
        (Type::Int32, Value::Int32(_)) => Ok(()),
        (Type::Int64, Value::Int64(_)) => Ok(()),
        (Type::Text(max), Value::Text(bytes)) => if bytes@.len() > max {
            Err(Error::TextTooLong)
        } else {
            Ok(())
        },
        (Type::Reference(_, _), Value::Reference(_)) => Ok(()),
        _ => Err(Error::ValueTypeMismatch),
    }
}

pub fn value_fits_inner(t: Type, v: &Value) -> (r: Result<(), Error>)
    ensures
        r == spec_value_fits_inner(t, *v),
{
    match (t, v) {
        (Type::Bool, Value::Bool(_)) => Ok(()),
        (Type::Uint16, Value::Uint16(_)) => Ok(()),
        (Type::Uint32, Value::Uint32(_)) => Ok(()),
        (Type::Uint64, Value::Uint64(_)) => Ok(()),
        (Type::Int16, Value::Int16(_)) => Ok(()),
        (Type::Int32, Value::Int32(_)) => Ok(()),
        (Type::Int64, Value::Int64(_)) => Ok(()),
        (Type::Text(max), Value::Text(bytes)) => {
            if bytes.len() > max as usize {
                Err(Error::TextTooLong)
            } else {
                Ok(())
            }
        },
        (Type::Reference(_, _), Value::Reference(_)) => Ok(()),
        _ => Err(Error::ValueTypeMismatch),
    }
}

/// Whether every element of a vector value fits the inner type; elements are
/// checked in order and the first offending one decides the error.
pub open spec fn spec_vec_elems_fit_inner(t: Type, elems: Seq<Value>) -> Result<(), Error>
    decreases elems.len(),
{
    if elems.len() == 0 {
        Ok(())
    } else {
        match spec_value_fits_inner(t, elems[0]) {
            Err(e) => Err(e),
            Ok(()) => spec_vec_elems_fit_inner(t, elems.drop_first()),
        }
    }
}

/// Whether a vector value has the element kind, count bound, and per-element
/// bounds of a declared vector type.
pub open spec fn spec_vec_fits_type(vt: VecPropertyType, v: VecValue) -> Result<(), Error> {
    if !spec_vec_kind_matches(vt.vec_type, v) {
        Err(Error::ValueTypeMismatch)
    } else if v.elems().len() > vt.max_length {
        Err(Error::VecTooLong)
    } else {
        spec_vec_elems_fit_inner(vt.vec_type, v.elems())
    }
}

/// Whether the vector's arm agrees with the declared inner type.
pub open spec fn spec_vec_kind_matches(t: Type, v: VecValue) -> bool {
    match (t, v) {
        (Type::Bool, VecValue::Bool(_)) => true,
        (Type::Uint16, VecValue::Uint16(_)) => true,
        (Type::Uint32, VecValue::Uint32(_)) => true,
        (Type::Uint64, VecValue::Uint64(_)) => true,
        (Type::Int16, VecValue::Int16(_)) => true,
        (Type::Int32, VecValue::Int32(_)) => true,
        (Type::Int64, VecValue::Int64(_)) => true,
        (Type::Text(_), VecValue::Text(_)) => true,
        (Type::Reference(_, _), VecValue::Reference(_)) => true,
        _ => false,
    }
}

fn vec_kind_matches(t: Type, v: &VecValue) -> (r: bool)
    ensures
        r == spec_vec_kind_matches(t, *v),
{
    match (t, v) {
        (Type::Bool, VecValue::Bool(_)) => true,
        (Type::Uint16, VecValue::Uint16(_)) => true,
        (Type::Uint32, VecValue::Uint32(_)) => true,
        (Type::Uint64, VecValue::Uint64(_)) => true,
        (Type::Int16, VecValue::Int16(_)) => true,
        (Type::Int32, VecValue::Int32(_)) => true,
        (Type::Int64, VecValue::Int64(_)) => true,
        (Type::Text(_), VecValue::Text(_)) => true,
        (Type::Reference(_, _), VecValue::Reference(_)) => true,
        _ => false,
    }
}

pub fn vec_fits_type(vt: VecPropertyType, v: &VecValue) -> (r: Result<(), Error>)
    ensures
        r == spec_vec_fits_type(vt, *v),
{
    if !vec_kind_matches(vt.vec_type, v) {
        return Err(Error::ValueTypeMismatch);
    }
    if v.len() > vt.max_length as usize {
        return Err(Error::VecTooLong);
    }
    match v {
        VecValue::Text(texts) => {
            let n = texts.len();
            let mut i: usize = 0;
            proof {
                assert(v.elems().skip(0) =~= v.elems());
            }
            while i < n
                invariant
                    n == texts.len(),
                    i <= n,
                    spec_vec_kind_matches(vt.vec_type, *v),
                    v.elems().len() <= vt.max_length,
                    v == VecValue::Text(*texts),
                    spec_vec_elems_fit_inner(vt.vec_type, v.elems()) == spec_vec_elems_fit_inner(
                        vt.vec_type,
                        v.elems().skip(i as int),
                    ),
                decreases n - i,
            {
                proof {
                    assert(v.elems()[i as int] == Value::Text(texts@[i as int]));
                    assert(v.elems().skip(i as int)[0] == v.elems()[i as int]);
                }
                match value_fits_inner(vt.vec_type, &Value::Text(clone_bytes(&texts[i]))) {
                    Err(e) => {
                        proof {
                            assert(spec_value_fits_inner(vt.vec_type, v.elems()[i as int])
                                == Result::<(), Error>::Err(e));
                        }
                        return Err(e);
                    },
                    Ok(()) => {
                        proof {
                            assert(v.elems().skip(i as int).drop_first() =~= v.elems().skip(
                                i + 1 as int,
                            ));
                        }
                        i += 1;
                    },
                }
            }
            proof {
                assert(v.elems().skip(n as int) =~= Seq::<Value>::empty());
            }
            Ok(())
        },
        _ => {
            proof {
                lemma_non_text_elems_fit(vt.vec_type, v.elems());
            }
            Ok(())
        },
    }
}

/// Copies a byte string; the copy has the same contents.
pub fn clone_bytes(b: &Vec<u8>) -> (r: Vec<u8>)
    ensures
        r@ == b@,
{
    let n = b.len();
    let mut r: Vec<u8> = Vec::new();
    let mut i: usize = 0;
    while i < n
        invariant
            n == b.len(),
            i <= n,
            r@ == b@.subrange(0, i as int),
        decreases n - i,
    {
        r.push(b[i]);
        proof {
            assert(r@ =~= b@.subrange(0, i + 1 as int));
        }
        i += 1;
    }
    proof {
        assert(r@ =~= b@);
    }
    r
}

/// Elements of a kind-matching non-text vector always fit the inner type.
proof fn lemma_non_text_elems_fit(t: Type, elems: Seq<Value>)
    requires
        forall|i: int| 0 <= i < elems.len() ==> spec_value_fits_inner(t, #[trigger] elems[i])
            == Result::<(), Error>::Ok(()),
    ensures
        spec_vec_elems_fit_inner(t, elems) == Result::<(), Error>::Ok(()),
    decreases elems.len(),
{
    if elems.len() > 0 {
        lemma_non_text_elems_fit(t, elems.drop_first());
    }
}

/// A subset of a class's properties, identified by their dense indices,
/// together with an active flag.  Schemas are appended, never removed.
#[derive(Clone, Debug, PartialEq, Eq)]
#[verifier::ext_equal]
pub struct Schema {
    pub properties: Vec<PropertyId>,
    pub is_active: bool,
}

impl Schema {
    /// The property indices this schema bundles.
    pub open spec fn spec_properties(&self) -> Seq<PropertyId> {
        self.properties@
    }

    /// Whether the schema accepts new entity support.
    pub open spec fn spec_is_active(&self) -> bool {
        self.is_active
    }

    /// A new, initially active schema over the given property indices.
    pub fn new(properties: Vec<PropertyId>) -> (r: Schema)
        ensures
            r.spec_properties() == properties@,
            r.spec_is_active(),
    {
        Schema { properties, is_active: true }
    }

    pub fn get_properties(&self) -> (r: &Vec<PropertyId>)
        ensures
            r@ == self.spec_properties(),
    {
        &self.properties
    }

    pub fn get_properties_mut(&mut self) -> (r: &mut Vec<PropertyId>)
        ensures
            r@ == old(self).spec_properties(),
            final(self).spec_properties() == final(r)@,
            final(self).spec_is_active() == old(self).spec_is_active(),
    {
        &mut self.properties
    }

    pub fn is_active(&self) -> (r: bool)
        ensures
            r == self.spec_is_active(),
    {
        self.is_active
    }

    pub fn set_status(&mut self, is_active: bool)
        ensures
            final(self).is_active == is_active,
            final(self).properties == old(self).properties,
    {
        self.is_active = is_active;
    }
}

} // verus!
