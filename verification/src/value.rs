//! The JVM value model: a tagged union over the primitive types and
//! references, and the `JavaValueVec` container used for operand stacks and
//! local-variable tables.
//!
//! A category-2 value (`Long`, `Double`) occupies two cells: the value itself
//! followed by an `Internal` upper-half sentinel. `Float` and `Double` carry
//! raw IEEE-754 bit patterns.

use vstd::prelude::*;

verus! {

#[derive(Clone, Copy, Debug)]
pub enum JavaValue {
    Byte(i8),
    Short(i16),
    Int(i32),
    Long(i64),
    /// IEEE-754 single-precision bit pattern.
    Float(u32),
    /// IEEE-754 double-precision bit pattern.
    Double(u64),
    Char(u16),
    Boolean(bool),
    Object(Option<usize>),
    Array(usize),
    Internal { is_unset: bool, is_higher_bits: bool },
}

impl JavaValue {
    /// A category-2 value occupies two cells on the stack and in locals.
    pub open spec fn is_category_2(self) -> bool {
        self is Long || self is Double
    }

    /// The sentinel that sits in the second cell of a category-2 value.
    pub open spec fn is_upper_half(self) -> bool {
        self matches JavaValue::Internal { is_higher_bits: true, .. }
    }

    /// The sentinel written above every category-2 value.
    pub open spec fn spec_upper_half() -> JavaValue {
        JavaValue::Internal { is_unset: false, is_higher_bits: true }
    }

    /// The placeholder for a local-variable slot that has not been written.
    pub open spec fn spec_unset() -> JavaValue {
        JavaValue::Internal { is_unset: true, is_higher_bits: false }
    }

    pub fn upper_half() -> (r: JavaValue)
        ensures
            r == JavaValue::spec_upper_half(),
    {
        JavaValue::Internal { is_unset: false, is_higher_bits: true }
    }

    pub fn unset() -> (r: JavaValue)
        ensures
            r == JavaValue::spec_unset(),
    {
        JavaValue::Internal { is_unset: true, is_higher_bits: false }
    }

    /// Integral promotion: `Byte`, `Short`, `Char` and `Boolean` widen to a
    /// 32-bit `int` wherever the bytecode expects an integral value.
    pub open spec fn spec_as_int(self) -> Result<i32, ()> {
        match self {
            JavaValue::Byte(x) => Ok(x as i32),
            JavaValue::Short(x) => Ok(x as i32),
            JavaValue::Int(x) => Ok(x),
            JavaValue::Char(x) => Ok(x as i32),
            JavaValue::Boolean(x) => Ok(if x { 1 } else { 0 }),
            _ => Err(()),
        }
    }

    pub fn as_int(&self) -> (r: Result<i32, ()>)
        ensures
            r == self.spec_as_int(),
    {
        match self {
            JavaValue::Byte(x) => Ok(*x as i32),
            JavaValue::Short(x) => Ok(*x as i32),
            JavaValue::Int(x) => Ok(*x),
            JavaValue::Char(x) => Ok(*x as i32),
            JavaValue::Boolean(x) => Ok(if *x { 1 } else { 0 }),
            _ => Err(()),
        }
    }

    pub fn as_long(&self) -> (r: Result<i64, ()>)
        ensures
            r == (match *self {
                JavaValue::Long(x) => Ok::<i64, ()>(x),
                _ => Err::<i64, ()>(()),
            }),
    {
        match self {
            JavaValue::Long(x) => Ok(*x),
            _ => Err(()),
        }
    }

    pub fn is_object(&self) -> (r: bool)
        ensures
            r == (self is Object),
    {
        matches!(self, JavaValue::Object(_))
    }

    pub fn is_array(&self) -> (r: bool)
        ensures
            r == (self is Array),
    {
        matches!(self, JavaValue::Array(_))
    }

    pub fn as_array(&self) -> (r: Result<usize, ()>)
        ensures
            r == (match *self {
                JavaValue::Array(x) => Ok::<usize, ()>(x),
                _ => Err::<usize, ()>(()),
            }),
    {
        match self {
            JavaValue::Array(x) => Ok(*x),
            _ => Err(()),
        }
    }

    pub fn as_object(&self) -> (r: Result<Option<usize>, ()>)
        ensures
            r == (match *self {
                JavaValue::Object(x) => Ok::<Option<usize>, ()>(x),
                _ => Err::<Option<usize>, ()>(()),
            }),
    {
        match self {
            JavaValue::Object(x) => Ok(*x),
            _ => Err(()),
        }
    }

    /// The raw IEEE-754 single-precision bits of a `Float` value.
    pub fn as_float(&self) -> (r: Result<u32, ()>)
        ensures
            r == (match *self {
                JavaValue::Float(x) => Ok::<u32, ()>(x),
                _ => Err::<u32, ()>(()),
            }),
    {
        match self {
            JavaValue::Float(x) => Ok(*x),
            _ => Err(()),
        }
    }

    /// The raw IEEE-754 double-precision bits of a `Double` value.
    pub fn as_double(&self) -> (r: Result<u64, ()>)
        ensures
            r == (match *self {
                JavaValue::Double(x) => Ok::<u64, ()>(x),
                _ => Err::<u64, ()>(()),
            }),
    {
        match self {
            JavaValue::Double(x) => Ok(*x),
            _ => Err(()),
        }
    }

    pub fn as_byte(&self) -> (r: Result<i8, ()>)
        ensures
            r == (match *self {
                JavaValue::Byte(x) => Ok::<i8, ()>(x),
                _ => Err::<i8, ()>(()),
            }),
    {
        match self {
            JavaValue::Byte(x) => Ok(*x),
            _ => Err(()),
        }
    }

    /// True exactly when the integral promotion of the value is 1.
    pub fn as_boolean(&self) -> (r: Result<bool, ()>)
        ensures
            r == (match self.spec_as_int() {
                Ok(x) => Ok::<bool, ()>(x == 1),
                Err(()) => Err::<bool, ()>(()),
            }),
    {
        match self.as_int() {
            Ok(x) => Ok(x == 1),
            Err(()) => Err(()),
        }
    }

    /// The type-default value for a field or array slot with the given
    /// descriptor: zero for the numeric types, false for `boolean`, and a
    /// null reference for objects and arrays.
    pub open spec fn spec_default(descriptor: Seq<char>) -> Result<JavaValue, ()> {
        if descriptor.len() == 0 {
            Err(())
        } else {
            match descriptor[0] {
                'B' => Ok(JavaValue::Byte(0)),
                'S' => Ok(JavaValue::Short(0)),
                'I' => Ok(JavaValue::Int(0)),
                'J' => Ok(JavaValue::Long(0)),
                'F' => Ok(JavaValue::Float(0)),
                'D' => Ok(JavaValue::Double(0)),
                'C' => Ok(JavaValue::Char(0)),
                'Z' => Ok(JavaValue::Boolean(false)),
                'L' => Ok(JavaValue::Object(None)),
                '[' => Ok(JavaValue::Object(None)),
                _ => Err(()),
            }
        }
    }

    pub fn default(descriptor: &str) -> (r: Result<JavaValue, ()>)
        ensures
            r == JavaValue::spec_default(descriptor@),
    {
        if descriptor.unicode_len() == 0 {
            return Err(());
        }
        let c = descriptor.get_char(0);
        match c {
            'B' => Ok(JavaValue::Byte(0)),
            'S' => Ok(JavaValue::Short(0)),
            'I' => Ok(JavaValue::Int(0)),
            'J' => Ok(JavaValue::Long(0)),
            'F' => Ok(JavaValue::Float(0)),
            'D' => Ok(JavaValue::Double(0)),
            'C' => Ok(JavaValue::Char(0)),
            'Z' => Ok(JavaValue::Boolean(false)),
            'L' => Ok(JavaValue::Object(None)),
            '[' => Ok(JavaValue::Object(None)),
            _ => Err(()),
        }
    }
}

/// What `JavaValueVec::push` appends: the value itself, followed by the
/// upper-half sentinel when the value is category-2.
pub open spec fn spec_push(s: Seq<JavaValue>, v: JavaValue) -> Seq<JavaValue> {
    if v.is_category_2() {
        s.push(v).push(JavaValue::spec_upper_half())
    } else {
        s.push(v)
    }
}

/// What `JavaValueVec::pop` does: removes and returns the last cell.
pub open spec fn spec_pop(s: Seq<JavaValue>) -> (Seq<JavaValue>, Option<JavaValue>) {
    if s.len() == 0 {
        (s, None)
    } else {
        (s.drop_last(), Some(s.last()))
    }
}

/// What `JavaValueVec::pop_full` does: removes the last cell, and when that
/// cell is an upper-half sentinel also removes and returns the category-2
/// value below it.
pub open spec fn spec_pop_full(s: Seq<JavaValue>) -> (Seq<JavaValue>, Option<JavaValue>) {
    if s.len() == 0 {
        (s, None)
    } else if s.last().is_upper_half() {
        if s.len() >= 2 {
            (s.take(s.len() - 2), Some(s[s.len() - 2]))
        } else {
            (s.drop_last(), None)
        }
    } else {
        (s.drop_last(), Some(s.last()))
    }
}

/// Well-formedness of an operand stack: every category-2 value is followed
/// immediately by its upper-half sentinel, and every upper-half sentinel sits
/// immediately above a category-2 value.
pub open spec fn stack_wf(s: Seq<JavaValue>) -> bool {
    &&& forall|i: int|
        0 <= i < s.len() && #[trigger] s[i].is_category_2() ==> i + 1 < s.len()
            && s[i + 1].is_upper_half()
    &&& forall|i: int|
        0 <= i < s.len() && #[trigger] s[i].is_upper_half() ==> i >= 1 && s[i - 1].is_category_2()
}

/// Round trip for category-1 values: pushing a category-1 value onto any
/// stack and then popping one cell returns an equal value and restores the
/// stack.
pub proof fn lemma_round_trip_category_1(s: Seq<JavaValue>, v: JavaValue)
    requires
        !v.is_category_2(),
    ensures
        spec_pop(spec_push(s, v)) == (s, Some(v)),
{
    assert(spec_push(s, v).drop_last() =~= s);
}

/// Round trip for category-2 values: pushing a `Long` or `Double` (which
/// appends the value and its upper-half sentinel) and then popping a full
/// value returns an equal value and restores the stack.
pub proof fn lemma_round_trip_category_2(s: Seq<JavaValue>, v: JavaValue)
    requires
        v.is_category_2(),
    ensures
        spec_pop_full(spec_push(s, v)) == (s, Some(v)),
{
    let t = spec_push(s, v);
    assert(t.take(t.len() - 2) =~= s);
}

/// A vector of JVM values, used both as an operand stack and as a
/// local-variable table. `push` maintains the category-2 pairing discipline;
/// `push_exact` appends a single cell verbatim.
#[derive(Debug, Clone)]
pub struct JavaValueVec {
    vec: Vec<JavaValue>,
}

impl View for JavaValueVec {
    type V = Seq<JavaValue>;

    closed spec fn view(&self) -> Seq<JavaValue> {
        self.vec@
    }
}

impl JavaValueVec {
    pub fn new() -> (r: JavaValueVec)
        ensures
            r@ == Seq::<JavaValue>::empty(),
    {
        JavaValueVec { vec: Vec::new() }
    }

    pub fn with_capacity(capacity: usize) -> (r: JavaValueVec)
        ensures
            r@ == Seq::<JavaValue>::empty(),
    {
        JavaValueVec { vec: Vec::with_capacity(capacity) }
    }

    pub fn from_vec(vec: Vec<JavaValue>) -> (r: JavaValueVec)
        ensures
            r@ == vec@,
    {
        JavaValueVec { vec }
    }

    /// Appends exactly one cell, with no sentinel handling.
    pub fn push_exact(&mut self, val: JavaValue)
        ensures
            final(self)@ == old(self)@.push(val),
    {
        self.vec.push(val);
    }

    /// Appends a value; a category-2 value is followed by its sentinel.
    pub fn push(&mut self, val: JavaValue)
        ensures
            final(self)@ == spec_push(old(self)@, val),
    {
        match val {
            JavaValue::Long(_) | JavaValue::Double(_) => {
                self.vec.push(val);
                self.vec.push(JavaValue::Internal { is_unset: false, is_higher_bits: true });
            },
            x => self.vec.push(x),
        }
    }

    pub fn remove(&mut self, index: usize) -> (r: JavaValue)
        requires
            index < old(self)@.len(),
        ensures
            r == old(self)@[index as int],
            final(self)@ == old(self)@.remove(index as int),
    {
        self.vec.remove(index)
    }

    /// Removes and returns the last cell.
    pub fn pop(&mut self) -> (r: Option<JavaValue>)
        ensures
            (final(self)@, r) == spec_pop(old(self)@),
    {
        self.vec.pop()
    }

    /// Removes and returns the last full value: when the top cell is an
    /// upper-half sentinel, the category-2 value below it is removed too and
    /// returned.
    pub fn pop_full(&mut self) -> (r: Option<JavaValue>)
        ensures
            (final(self)@, r) == spec_pop_full(old(self)@),
    {
        let popped = self.vec.pop();
        match popped {
            Some(ret) => match ret {
                JavaValue::Internal { is_higher_bits, .. } => {
                    if is_higher_bits {
                        let r = self.vec.pop();
                        proof {
                            if old(self)@.len() >= 2 {
                                assert(self@ =~= old(self)@.take(old(self)@.len() - 2));
                            }
                        }
                        r
                    } else {
                        Some(ret)
                    }
                },
                _ => Some(ret),
            },
            None => None,
        }
    }

    pub fn last(&self) -> (r: Option<&JavaValue>)
        ensures
            (spec_pop(self@).1 matches Some(v) ==> r matches Some(rv) && *rv == v),
            (spec_pop(self@).1 is None ==> r is None),
    {
        self.vec.last()
    }

    /// Returns the last full value without removing it: when the top cell is
    /// an upper-half sentinel, the category-2 value below it is returned.
    pub fn last_full(&self) -> (r: Option<&JavaValue>)
        ensures
            (spec_pop_full(self@).1 matches Some(v) ==> r matches Some(rv) && *rv == v),
            (spec_pop_full(self@).1 is None ==> r is None),
    {
        match self.vec.last() {
            Some(val) => match val {
                JavaValue::Internal { is_higher_bits, .. } => {
                    if *is_higher_bits {
                        if self.vec.len() >= 2 {
                            Some(&self.vec[self.vec.len() - 2])
                        } else {
                            None
                        }
                    } else {
                        Some(val)
                    }
                },
                _ => Some(val),
            },
            None => None,
        }
    }

    pub fn insert(&mut self, index: usize, element: JavaValue)
        requires
            index <= old(self)@.len(),
        ensures
            final(self)@ == old(self)@.insert(index as int, element),
    {
        self.vec.insert(index, element);
    }

    pub fn len(&self) -> (r: usize)
        ensures
            r == self@.len(),
    {
        self.vec.len()
    }

    pub fn is_empty(&self) -> (r: bool)
        ensures
            r == (self@.len() == 0),
    {
        self.vec.len() == 0
    }

    pub fn reverse(&mut self)
        ensures
            final(self)@ == old(self)@.reverse(),
    {
        let n = self.vec.len();
        let mut out: Vec<JavaValue> = Vec::with_capacity(n);
        let mut i: usize = 0;
        while i < n
            invariant
                i <= n,
                n == self.vec@.len(),
                self.vec@ == old(self)@,
                out@.len() == i,
                forall|j: int| 0 <= j < i ==> out@[j] == self.vec@[n - 1 - j],
            decreases n - i,
        {
            out.push(self.vec[n - 1 - i]);
            i = i + 1;
        }
        self.vec = out;
        proof {
            assert(final(self)@ =~= old(self)@.reverse());
        }
    }

    pub fn get(&self, index: usize) -> (r: &JavaValue)
        requires
            index < self@.len(),
        ensures
            *r == self@[index as int],
    {
        &self.vec[index]
    }

    pub fn set(&mut self, index: usize, val: JavaValue)
        requires
            index < old(self)@.len(),
        ensures
            final(self)@ == old(self)@.update(index as int, val),
    {
        self.vec[index] = val;
    }
}

} // verus!
