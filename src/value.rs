use vstd::prelude::*;

verus! {

broadcast use vstd::std_specs::vec::axiom_vec_index_decreases;

/// A value handed across the boundary by the dynamic host.
///
/// Floating-point numbers travel as their IEEE-754 bit pattern; handles
/// (callables, modules and other host objects) are opaque identifiers.
/// A set's items are listed as they were added: the host may merge items it
/// deems equal (a boolean `true` and the integer 1), so the set it builds
/// can have fewer members than the list.
pub enum DynamicValue {
    Null,
    Bool(bool),
    Int(i64),
    Float(u64),
    Str(String),
    Sequence(Vec<DynamicValue>),
    Tuple(Vec<DynamicValue>),
    SetOf(Vec<DynamicValue>),
    Mapping(Vec<(String, DynamicValue)>),
    Callable(u64),
    Module(u64),
    Other(u64),
}

/// The mathematical model of a `DynamicValue`: strings become character
/// sequences, containers become sequences of models.
pub enum Dyn {
    Null,
    Bool(bool),
    Int(int),
    Float(u64),
    Str(Seq<char>),
    Sequence(Seq<Dyn>),
    Tuple(Seq<Dyn>),
    SetOf(Seq<Dyn>),
    Mapping(Seq<(Seq<char>, Dyn)>),
    Callable(u64),
    Module(u64),
    Other(u64),
}

impl DynamicValue {
    pub open spec fn model(self) -> Dyn
        decreases self,
    {
        match self {
            DynamicValue::Null => Dyn::Null,
            DynamicValue::Bool(b) => Dyn::Bool(b),
            DynamicValue::Int(n) => Dyn::Int(n as int),
            DynamicValue::Float(bits) => Dyn::Float(bits),
            DynamicValue::Str(s) => Dyn::Str(s@),
            DynamicValue::Sequence(v) => Dyn::Sequence(
                Seq::new(v.len() as nat, |i: int| if 0 <= i < v.len() { v[i].model() } else { Dyn::Null }),
            ),
            DynamicValue::Tuple(v) => Dyn::Tuple(Seq::new(v.len() as nat, |i: int| if 0 <= i < v.len() { v[i].model() } else { Dyn::Null })),
            DynamicValue::SetOf(v) => Dyn::SetOf(Seq::new(v.len() as nat, |i: int| if 0 <= i < v.len() { v[i].model() } else { Dyn::Null })),
            DynamicValue::Mapping(v) => Dyn::Mapping(
                Seq::new(v.len() as nat, |i: int| if 0 <= i < v.len() { (v[i].0@, v[i].1.model()) } else { (Seq::empty(), Dyn::Null) }),
            ),
            DynamicValue::Callable(h) => Dyn::Callable(h),
            DynamicValue::Module(h) => Dyn::Module(h),
            DynamicValue::Other(h) => Dyn::Other(h),
        }
    }
}

/// The native type that a value is asked to convert to.
#[derive(Clone, Copy, PartialEq, Eq, Structural, Debug)]
pub enum NativeType {
    Anything,
    Text,
    Integer,
    Real,
    Boolean,
    Texts,
}

/// The shape that a value is recognised as, tried in this order.
#[derive(Clone, Copy, PartialEq, Eq, Structural, Debug)]
pub enum Shape {
    Text,
    Integer,
    Real,
    Boolean,
    List,
    SetShape,
    Dictionary,
    Function,
    Module,
}

/// The characters of a string value.
pub open spec fn text_of(d: Dyn) -> Option<Seq<char>> {
    match d {
        Dyn::Str(s) => Some(s),
        _ => None,
    }
}

/// A 32-bit signed integer value; larger integers do not convert. A boolean
/// counts as an integer too, `true` as 1 and `false` as 0, as the host's
/// booleans are integers.
pub open spec fn int_of(d: Dyn) -> Option<int> {
    match d {
        Dyn::Bool(b) => Some(if b { 1int } else { 0int }),
        Dyn::Int(n) => if i32::MIN <= n <= i32::MAX {
            Some(n)
        } else {
            None
        },
        _ => None,
    }
}

/// The bit pattern of a floating-point value.
pub open spec fn float_of(d: Dyn) -> Option<u64> {
    match d {
        Dyn::Float(bits) => Some(bits),
        _ => None,
    }
}

pub open spec fn bool_of(d: Dyn) -> Option<bool> {
    match d {
        Dyn::Bool(b) => Some(b),
        _ => None,
    }
}

/// A list whose every element is a string.
pub open spec fn texts_of(d: Dyn) -> Option<Seq<Seq<char>>> {
    match d {
        Dyn::Sequence(items) => if forall|i: int| 0 <= i < items.len() ==> (#[trigger] items[i]) is Str {
            Some(Seq::new(items.len(), |i: int| text_of(items[i])->0))
        } else {
            None
        },
        _ => None,
    }
}

pub open spec fn text_value(s: Seq<char>) -> Dyn {
    Dyn::Str(s)
}

pub open spec fn int_value(n: int) -> Dyn {
    Dyn::Int(n)
}

pub open spec fn float_value(bits: u64) -> Dyn {
    Dyn::Float(bits)
}

pub open spec fn bool_value(b: bool) -> Dyn {
    Dyn::Bool(b)
}

pub open spec fn texts_value(t: Seq<Seq<char>>) -> Dyn {
    Dyn::Sequence(Seq::new(t.len(), |i: int| Dyn::Str(t[i])))
}

/// Whether a value converts to the given native type.
pub open spec fn converts_to(d: Dyn, t: NativeType) -> bool {
    match t {
        NativeType::Anything => true,
        NativeType::Text => text_of(d) is Some,
        NativeType::Integer => int_of(d) is Some,
        NativeType::Real => float_of(d) is Some || d is Int || d is Bool,
        NativeType::Boolean => bool_of(d) is Some,
        NativeType::Texts => texts_of(d) is Some,
    }
}

/// The first shape, in the fixed priority order, that a value converts to.
pub open spec fn shape_of(d: Dyn) -> Option<Shape> {
    if text_of(d) is Some {
        Some(Shape::Text)
    } else if int_of(d) is Some {
        Some(Shape::Integer)
    } else if converts_to(d, NativeType::Real) {
        Some(Shape::Real)
    } else if bool_of(d) is Some {
        Some(Shape::Boolean)
    } else if d is Sequence {
        Some(Shape::List)
    } else if d is SetOf {
        Some(Shape::SetShape)
    } else if d is Mapping {
        Some(Shape::Dictionary)
    } else if d is Callable {
        Some(Shape::Function)
    } else if d is Module {
        Some(Shape::Module)
    } else {
        None
    }
}

/// Converting a value to a native type and back gives the value again, for
/// every value that the native type can represent. A boolean read as an
/// integer comes back as an integer, not a boolean, so the integer case
/// holds of integer values.
pub proof fn round_trip(d: Dyn)
    ensures
        text_of(d) is Some ==> text_value(text_of(d)->0) == d,
        int_of(d) is Some && d is Int ==> int_value(int_of(d)->0) == d,
        float_of(d) is Some ==> float_value(float_of(d)->0) == d,
        bool_of(d) is Some ==> bool_value(bool_of(d)->0) == d,
        texts_of(d) is Some ==> texts_value(texts_of(d)->0) == d,
{
    if texts_of(d) is Some {
        let items = d->Sequence_0;
        assert(texts_value(texts_of(d)->0)->Sequence_0 =~= items);
    }
}

impl DynamicValue {
    /// A deep copy: containers are copied element by element.
    pub fn duplicate(&self) -> (r: DynamicValue)
        ensures
            r.model() == self.model(),
        decreases self,
    {
        match self {
            DynamicValue::Null => DynamicValue::Null,
            DynamicValue::Bool(b) => DynamicValue::Bool(*b),
            DynamicValue::Int(n) => DynamicValue::Int(*n),
            DynamicValue::Float(bits) => DynamicValue::Float(*bits),
            DynamicValue::Str(s) => DynamicValue::Str(s.clone()),
            DynamicValue::Sequence(v) => {
                let c = duplicate_all(v);
                let r = DynamicValue::Sequence(c);
                assert(r.model()->Sequence_0 =~= self.model()->Sequence_0);
                r
            },
            DynamicValue::Tuple(v) => {
                let c = duplicate_all(v);
                let r = DynamicValue::Tuple(c);
                assert(r.model()->Tuple_0 =~= self.model()->Tuple_0);
                r
            },
            DynamicValue::SetOf(v) => {
                let c = duplicate_all(v);
                let r = DynamicValue::SetOf(c);
                assert(r.model()->SetOf_0 =~= self.model()->SetOf_0);
                r
            },
            DynamicValue::Mapping(v) => {
                let c = duplicate_entries(v);
                let r = DynamicValue::Mapping(c);
                assert(r.model()->Mapping_0 =~= self.model()->Mapping_0);
                r
            },
            DynamicValue::Callable(h) => DynamicValue::Callable(*h),
            DynamicValue::Module(h) => DynamicValue::Module(*h),
            DynamicValue::Other(h) => DynamicValue::Other(*h),
        }
    }

    /// The value as a string, if it is one.
    pub fn as_text(&self) -> (r: Option<String>)
        ensures
            r is Some <==> text_of(self.model()) is Some,
            r is Some ==> text_of(self.model()) == Some(r->0@),
    {
        match self {
            DynamicValue::Str(s) => Some(s.clone()),
            _ => None,
        }
    }

    /// The value as a 32-bit integer, if it is an integer in that range or a
    /// boolean.
    pub fn as_int(&self) -> (r: Option<i32>)
        ensures
            r is Some <==> int_of(self.model()) is Some,
            r is Some ==> int_of(self.model()) == Some(r->0 as int),
    {
        match self {
            DynamicValue::Int(n) => if i32::MIN as i64 <= *n && *n <= i32::MAX as i64 {
                Some(*n as i32)
            } else {
                None
            },
            DynamicValue::Bool(b) => Some(if *b { 1 } else { 0 }),
            _ => None,
        }
    }

    /// The bit pattern of the value, if it is a floating-point number.
    pub fn as_float_bits(&self) -> (r: Option<u64>)
        ensures
            r == float_of(self.model()),
    {
        match self {
            DynamicValue::Float(bits) => Some(*bits),
            _ => None,
        }
    }

    pub fn as_bool(&self) -> (r: Option<bool>)
        ensures
            r == bool_of(self.model()),
    {
        match self {
            DynamicValue::Bool(b) => Some(*b),
            _ => None,
        }
    }

    /// The value as a list of strings, if it is a list that holds only strings.
    pub fn as_texts(&self) -> (r: Option<Vec<String>>)
        ensures
            r is Some <==> texts_of(self.model()) is Some,
            r is Some ==> texts_of(self.model()) == Some(
                Seq::new(r->0.len() as nat, |i: int| r->0[i]@),
            ),
    {
        match self {
            DynamicValue::Sequence(v) => {
                let mut out: Vec<String> = Vec::new();
                let mut i: usize = 0;
                while i < v.len()
                    invariant
                        *self == DynamicValue::Sequence(*v),
                        i <= v.len(),
                        out.len() == i,
                        forall|k: int| 0 <= k < i ==> v[k].model() == Dyn::Str((#[trigger] out[k])@),
                    decreases v.len() - i,
                {
                    match &v[i] {
                        DynamicValue::Str(s) => out.push(s.clone()),
                        _ => {
                            assert(self.model()->Sequence_0[i as int] == v[i as int].model());
                            return None;
                        },
                    }
                    i = i + 1;
                }
                assert forall|k: int| 0 <= k < v.len() implies (#[trigger] self.model()->Sequence_0[k]) is Str by {
                    assert(self.model()->Sequence_0[k] == v[k].model());
                    assert(v[k].model() == Dyn::Str(out[k]@));
                }
                assert(texts_of(self.model())->0 =~= Seq::new(out.len() as nat, |i: int| out[i]@));
                Some(out)
            },
            _ => None,
        }
    }

    pub fn from_text(s: String) -> (r: DynamicValue)
        ensures
            r.model() == text_value(s@),
    {
        DynamicValue::Str(s)
    }

    pub fn from_int(n: i32) -> (r: DynamicValue)
        ensures
            r.model() == int_value(n as int),
    {
        DynamicValue::Int(n as i64)
    }

    pub fn from_float_bits(bits: u64) -> (r: DynamicValue)
        ensures
            r.model() == float_value(bits),
    {
        DynamicValue::Float(bits)
    }

    pub fn from_bool(b: bool) -> (r: DynamicValue)
        ensures
            r.model() == bool_value(b),
    {
        DynamicValue::Bool(b)
    }

    pub fn from_texts(t: Vec<String>) -> (r: DynamicValue)
        ensures
            r.model() == texts_value(Seq::new(t.len() as nat, |i: int| t[i]@)),
    {
        let mut items: Vec<DynamicValue> = Vec::new();
        let mut i: usize = 0;
        while i < t.len()
            invariant
                i <= t.len(),
                items.len() == i,
                forall|k: int| 0 <= k < i ==> (#[trigger] items[k]).model() == Dyn::Str(t[k]@),
            decreases t.len() - i,
        {
            items.push(DynamicValue::Str(t[i].clone()));
            i = i + 1;
        }
        let r = DynamicValue::Sequence(items);
        assert(r.model()->Sequence_0 =~= texts_value(Seq::new(t.len() as nat, |i: int| t[i]@))->Sequence_0);
        r
    }

    /// Whether the value converts to the given native type.
    pub fn converts_to(&self, t: NativeType) -> (r: bool)
        ensures
            r == converts_to(self.model(), t),
    {
        match t {
            NativeType::Anything => true,
            NativeType::Text => self.as_text().is_some(),
            NativeType::Integer => self.as_int().is_some(),
            NativeType::Real => match self {
                DynamicValue::Float(_) | DynamicValue::Int(_) | DynamicValue::Bool(_) => true,
                _ => false,
            },
            NativeType::Boolean => self.as_bool().is_some(),
            NativeType::Texts => self.as_texts().is_some(),
        }
    }

    /// The first shape the value is recognised as, trying text, integer,
    /// floating point, boolean, list, set, dictionary, function and module in
    /// that order and stopping at the first that fits. A boolean converts to
    /// an integer, so it is recognised as one.
    pub fn shape(&self) -> (r: Option<Shape>)
        ensures
            r == shape_of(self.model()),
    {
        if self.converts_to(NativeType::Text) {
            Some(Shape::Text)
        } else if self.converts_to(NativeType::Integer) {
            Some(Shape::Integer)
        } else if self.converts_to(NativeType::Real) {
            Some(Shape::Real)
        } else if self.converts_to(NativeType::Boolean) {
            Some(Shape::Boolean)
        } else {
            match self {
                DynamicValue::Sequence(_) => Some(Shape::List),
                DynamicValue::SetOf(_) => Some(Shape::SetShape),
                DynamicValue::Mapping(_) => Some(Shape::Dictionary),
                DynamicValue::Callable(_) => Some(Shape::Function),
                DynamicValue::Module(_) => Some(Shape::Module),
                _ => None,
            }
        }
    }
}

/// Deep copies of each entry of a mapping, in order.
pub fn duplicate_entries(v: &Vec<(String, DynamicValue)>) -> (r: Vec<(String, DynamicValue)>)
    ensures
        r.len() == v.len(),
        forall|k: int|
            0 <= k < v.len() ==> (#[trigger] r[k]).0@ == v[k].0@ && r[k].1.model() == v[k].1.model(),
    decreases v,
{
    let mut c: Vec<(String, DynamicValue)> = Vec::new();
    let mut i: usize = 0;
    while i < v.len()
        invariant
            i <= v.len(),
            c.len() == i,
            forall|k: int|
                0 <= k < i ==> (#[trigger] c[k]).0@ == v[k].0@ && c[k].1.model() == v[k].1.model(),
        decreases v.len() - i,
    {
        proof {
            vstd::std_specs::vec::axiom_vec_index_decreases(*v, i as int);
        }
        let e = (v[i].0.clone(), v[i].1.duplicate());
        c.push(e);
        i = i + 1;
    }
    c
}

/// Deep copies of each value, in order.
pub fn duplicate_all(v: &Vec<DynamicValue>) -> (r: Vec<DynamicValue>)
    ensures
        r.len() == v.len(),
        forall|k: int| 0 <= k < v.len() ==> (#[trigger] r[k]).model() == v[k].model(),
    decreases v,
{
    let mut c: Vec<DynamicValue> = Vec::new();
    let mut i: usize = 0;
    while i < v.len()
        invariant
            i <= v.len(),
            c.len() == i,
            forall|k: int| 0 <= k < i ==> (#[trigger] c[k]).model() == v[k].model(),
        decreases v.len() - i,
    {
        proof {
            vstd::std_specs::vec::axiom_vec_index_decreases(*v, i as int);
        }
        c.push(v[i].duplicate());
        i = i + 1;
    }
    c
}

} // verus!
