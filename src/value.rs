use vstd::prelude::*;

verus! {

/// A runtime datum: the literal of a comparison, or what a record holds in a field.
#[derive(Debug, Clone, PartialEq)]
pub enum Value {
    String(String),
    Int(i32),
    VecString(Vec<String>),
    VecInt(Vec<i32>),
}

/// The mathematical content of a [`Value`].
pub enum ValueView {
    String(Seq<char>),
    Int(i32),
    VecString(Seq<Seq<char>>),
    VecInt(Seq<i32>),
}

/// The character sequences held by a list of strings.
pub open spec fn strings_view(v: Seq<String>) -> Seq<Seq<char>> {
    v.map_values(|s: String| s@)
}

impl View for Value {
    type V = ValueView;

    open spec fn view(&self) -> ValueView {
        match self {
            Value::String(s) => ValueView::String(s@),
            Value::Int(n) => ValueView::Int(*n),
            Value::VecString(v) => ValueView::VecString(strings_view(v@)),
            Value::VecInt(v) => ValueView::VecInt(v@),
        }
    }
}

impl ValueView {
    /// Both values are of the same variant, whatever they hold.
    pub open spec fn same_kind(self, other: ValueView) -> bool {
        match (self, other) {
            (ValueView::String(_), ValueView::String(_)) => true,
            (ValueView::Int(_), ValueView::Int(_)) => true,
            (ValueView::VecString(_), ValueView::VecString(_)) => true,
            (ValueView::VecInt(_), ValueView::VecInt(_)) => true,
            _ => false,
        }
    }
}

/// A copy of a list of strings, element by element.
pub fn copy_strings(v: &Vec<String>) -> (r: Vec<String>)
    ensures
        strings_view(r@) == strings_view(v@),
{
    let mut r: Vec<String> = Vec::new();
    let mut i: usize = 0;
    while i < v.len()
        invariant
            i <= v.len(),
            r.len() == i,
            forall|k: int| 0 <= k < i ==> r@[k]@ == v@[k]@,
        decreases v.len() - i,
    {
        r.push(v[i].clone());
        i = i + 1;
    }
    assert(strings_view(r@) =~= strings_view(v@));
    r
}

/// A copy of a list of integers.
pub fn copy_ints(v: &Vec<i32>) -> (r: Vec<i32>)
    ensures
        r@ == v@,
{
    let mut r: Vec<i32> = Vec::new();
    let mut i: usize = 0;
    while i < v.len()
        invariant
            i <= v.len(),
            r@ == v@.subrange(0, i as int),
        decreases v.len() - i,
    {
        r.push(v[i]);
        i = i + 1;
        assert(r@ =~= v@.subrange(0, i as int));
    }
    assert(v@.subrange(0, v.len() as int) =~= v@);
    r
}

/// Whether two lists of strings hold the same strings in the same order.
fn strings_equal(a: &Vec<String>, b: &Vec<String>) -> (r: bool)
    ensures
        r == (strings_view(a@) == strings_view(b@)),
{
    if a.len() != b.len() {
        assert(strings_view(a@).len() != strings_view(b@).len());
        return false;
    }
    let mut i: usize = 0;
    while i < a.len()
        invariant
            i <= a.len(),
            a.len() == b.len(),
            forall|k: int| 0 <= k < i ==> a@[k]@ == b@[k]@,
        decreases a.len() - i,
    {
        if a[i] != b[i] {
            assert(strings_view(a@)[i as int] != strings_view(b@)[i as int]);
            return false;
        }
        i = i + 1;
    }
    assert(strings_view(a@) =~= strings_view(b@));
    true
}

/// Whether two lists of integers are equal.
fn ints_equal(a: &Vec<i32>, b: &Vec<i32>) -> (r: bool)
    ensures
        r == (a@ == b@),
{
    if a.len() != b.len() {
        return false;
    }
    let mut i: usize = 0;
    while i < a.len()
        invariant
            i <= a.len(),
            a.len() == b.len(),
            forall|k: int| 0 <= k < i ==> a@[k] == b@[k],
        decreases a.len() - i,
    {
        if a[i] != b[i] {
            return false;
        }
        i = i + 1;
    }
    assert(a@ =~= b@);
    true
}

impl Value {
    /// Builds a value from anything that converts into one.
    pub fn wrap<T>(t: T) -> (r: Self) where Value: From<T>
        requires
            <Value as vstd::std_specs::convert::FromSpec<T>>::obeys_from_spec(),
        ensures
            r == <Value as vstd::std_specs::convert::FromSpec<T>>::from_spec(t),
    {
        Value::from(t)
    }

    /// A copy of this value with the same content.
    pub fn duplicate(&self) -> (r: Value)
        ensures
            r@ == self@,
    {
        match self {
            Value::String(s) => Value::String(s.clone()),
            Value::Int(n) => Value::Int(*n),
            Value::VecString(v) => Value::VecString(copy_strings(v)),
            Value::VecInt(v) => Value::VecInt(copy_ints(v)),
        }
    }

    /// Whether the two values are equal in content.
    pub fn equals(&self, other: &Value) -> (r: bool)
        ensures
            r == (self@ == other@),
    {
        match self {
            Value::String(a) => match other {
                Value::String(b) => *a == *b,
                _ => false,
            },
            Value::Int(a) => match other {
                Value::Int(b) => *a == *b,
                _ => false,
            },
            Value::VecString(a) => match other {
                Value::VecString(b) => {
                    let r = strings_equal(a, b);
                    r
                },
                _ => false,
            },
            Value::VecInt(a) => match other {
                Value::VecInt(b) => {
                    let r = ints_equal(a, b);
                    r
                },
                _ => false,
            },
        }
    }
}

impl AsRef<Value> for Value {
    fn as_ref(&self) -> &Value {
        self
    }
}

impl From<String> for Value {
    fn from(val: String) -> (r: Value) {
        Value::String(val)
    }
}

impl vstd::std_specs::convert::FromSpecImpl<String> for Value {
    open spec fn obeys_from_spec() -> bool {
        true
    }

    open spec fn from_spec(v: String) -> Value {
        Value::String(v)
    }
}

impl From<i32> for Value {
    fn from(val: i32) -> (r: Value) {
        Value::Int(val)
    }
}

impl vstd::std_specs::convert::FromSpecImpl<i32> for Value {
    open spec fn obeys_from_spec() -> bool {
        true
    }

    open spec fn from_spec(v: i32) -> Value {
        Value::Int(v)
    }
}

impl From<Vec<String>> for Value {
    fn from(val: Vec<String>) -> (r: Value) {
        Value::VecString(val)
    }
}

impl vstd::std_specs::convert::FromSpecImpl<Vec<String>> for Value {
    open spec fn obeys_from_spec() -> bool {
        true
    }

    open spec fn from_spec(v: Vec<String>) -> Value {
        Value::VecString(v)
    }
}

impl From<Vec<i32>> for Value {
    fn from(val: Vec<i32>) -> (r: Value) {
        Value::VecInt(val)
    }
}

impl vstd::std_specs::convert::FromSpecImpl<Vec<i32>> for Value {
    open spec fn obeys_from_spec() -> bool {
        true
    }

    open spec fn from_spec(v: Vec<i32>) -> Value {
        Value::VecInt(v)
    }
}

} // verus!
