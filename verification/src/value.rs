use vstd::prelude::*;

verus! {

/// Mathematical model of a wire value: the JSON-like payload shape that
/// commands and events carry. Strings are sequences of characters, numbers
/// are 64-bit signed integers (the protocol does not use fractional
/// numbers), and objects are ordered lists of key/value fields.
#[verifier::ext_equal]
pub enum SValue {
    Null,
    Bool(bool),
    Num(i64),
    Str(Seq<char>),
    Arr(Seq<SValue>),
    Obj(Seq<(Seq<char>, SValue)>),
}

/// Untyped wire value carried by commands and events.
///
/// This is the executable counterpart of [`SValue`]; contracts speak of a
/// value through [`Value::deep_view`].
#[derive(Debug, PartialEq, Eq)]
pub enum Value {
    Null,
    Bool(bool),
    Num(i64),
    Str(Vec<char>),
    Arr(Vec<Value>),
    Obj(Vec<(Vec<char>, Value)>),
}

impl DeepView for Value {
    type V = SValue;

    open spec fn deep_view(&self) -> SValue
        decreases self,
    {
        match self {
            Value::Null => SValue::Null,
            Value::Bool(b) => SValue::Bool(*b),
            Value::Num(n) => SValue::Num(*n),
            Value::Str(s) => SValue::Str(s@),
            Value::Arr(items) => SValue::Arr(deep_view_arr(items@)),
            Value::Obj(fields) => SValue::Obj(deep_view_obj(fields@)),
        }
    }
}

/// Deep view of a sequence of values, element by element.
pub open spec fn deep_view_arr(s: Seq<Value>) -> Seq<SValue>
    decreases s,
{
    if s.len() == 0 {
        Seq::<SValue>::empty()
    } else {
        deep_view_arr(s.drop_last()).push(s.last().deep_view())
    }
}

/// Deep view of a sequence of object fields, element by element.
pub open spec fn deep_view_obj(s: Seq<(Vec<char>, Value)>) -> Seq<(Seq<char>, SValue)>
    decreases s,
{
    if s.len() == 0 {
        Seq::<(Seq<char>, SValue)>::empty()
    } else {
        deep_view_obj(s.drop_last()).push((s.last().0@, s.last().1.deep_view()))
    }
}

pub broadcast proof fn lemma_deep_view_arr(s: Seq<Value>)
    ensures
        #[trigger] deep_view_arr(s).len() == s.len(),
        forall|i: int| 0 <= i < s.len() ==> deep_view_arr(s)[i] == s[i].deep_view(),
    decreases s.len(),
{
    if s.len() > 0 {
        lemma_deep_view_arr(s.drop_last());
        assert(deep_view_arr(s) == deep_view_arr(s.drop_last()).push(s.last().deep_view()));
        assert(deep_view_arr(s).len() == s.len());
        assert forall|i: int| 0 <= i < s.len() implies deep_view_arr(s)[i]
            == s[i].deep_view() by {
            if i < s.len() - 1 {
                assert(s.drop_last()[i] == s[i]);
                assert(deep_view_arr(s) == deep_view_arr(s.drop_last()).push(
                    s.last().deep_view(),
                ));
                assert(deep_view_arr(s.drop_last()).push(s.last().deep_view())[i]
                    == deep_view_arr(s.drop_last())[i]);
            } else {
                assert(deep_view_arr(s) == deep_view_arr(s.drop_last()).push(
                    s.last().deep_view(),
                ));
                assert(deep_view_arr(s.drop_last()).push(s.last().deep_view())[i]
                    == s.last().deep_view());
            }
        }
    }
}

pub broadcast proof fn lemma_deep_view_obj(s: Seq<(Vec<char>, Value)>)
    ensures
        #[trigger] deep_view_obj(s).len() == s.len(),
        forall|i: int|
            0 <= i < s.len() ==> deep_view_obj(s)[i] == (s[i].0@, s[i].1.deep_view()),
    decreases s.len(),
{
    if s.len() > 0 {
        lemma_deep_view_obj(s.drop_last());
        assert forall|i: int| 0 <= i < s.len() implies deep_view_obj(s)[i]
            == (s[i].0@, s[i].1.deep_view()) by {
            if i < s.len() - 1 {
                assert(s.drop_last()[i] == s[i]);
                assert(deep_view_obj(s)[i] == deep_view_obj(s.drop_last())[i]);
            } else {
                assert(deep_view_obj(s) == deep_view_obj(s.drop_last()).push(
                    (s.last().0@, s.last().1.deep_view()),
                ));
                assert(deep_view_obj(s.drop_last()).push(
                    (s.last().0@, s.last().1.deep_view()),
                )[i] == (s.last().0@, s.last().1.deep_view()));
            }
        }
    }
}

/// True exactly when two character buffers hold the same characters.
pub fn eq_chars(a: &Vec<char>, b: &Vec<char>) -> (r: bool)
    ensures
        r == (a@ == b@),
{
    if a.len() != b.len() {
        assert(a@ != b@) by {
            assert(a@.len() != b@.len());
        }
        return false;
    }
    let mut k: usize = 0;
    while k < a.len()
        invariant
            k <= a@.len(),
            a@.len() == b@.len(),
            forall|j: int| 0 <= j < k ==> a@[j] == b@[j],
        decreases a@.len() - k,
    {
        if a[k] != b[k] {
            return false;
        }
        k = k + 1;
    }
    proof {
        assert(a@ =~= b@);
    }
    true
}


impl Value {
    /// A deep copy of the value.
    pub fn duplicate(&self) -> (r: Value)
        ensures
            r.deep_view() == self.deep_view(),
        decreases self, 0nat,
    {
        match self {
            Value::Null => Value::Null,
            Value::Bool(b) => Value::Bool(*b),
            Value::Num(n) => Value::Num(*n),
            Value::Str(s) => {
                let mut cs: Vec<char> = Vec::new();
                let mut k: usize = 0;
                while k < s.len()
                    invariant
                        k <= s@.len(),
                        cs@ == s@.subrange(0, k as int),
                    decreases s@.len() - k,
                {
                    cs.push(s[k]);
                    assert(cs@ =~= s@.subrange(0, k as int + 1));
                    k = k + 1;
                }
                assert(cs@ =~= s@);
                Value::Str(cs)
            },
            Value::Arr(items) => {
                let copied = duplicate_arr(items, 0);
                proof {
                    lemma_deep_view_arr(items@);
                    lemma_deep_view_arr(copied@);
                    assert(deep_view_arr(copied@) =~= deep_view_arr(items@));
                }
                Value::Arr(copied)
            },
            Value::Obj(fields) => {
                let copied = duplicate_obj(fields, 0);
                proof {
                    lemma_deep_view_obj(fields@);
                    lemma_deep_view_obj(copied@);
                    assert(deep_view_obj(copied@) =~= deep_view_obj(fields@));
                }
                Value::Obj(copied)
            },
        }
    }
}

fn duplicate_arr(items: &Vec<Value>, from: usize) -> (r: Vec<Value>)
    requires
        from <= items@.len(),
    ensures
        r@.len() == items@.len() - from,
        forall|k: int|
            0 <= k < r@.len() ==> (#[trigger] r@[k]).deep_view()
                == items@[from + k].deep_view(),
    decreases items@, (items@.len() - from) as nat,
{
    if from == items.len() {
        Vec::new()
    } else {
        let head = items[from].duplicate();
        let rest = duplicate_arr(items, from + 1);
        let ghost rest_view = rest@;
        let mut r = rest;
        r.insert(0, head);
        assert(r@ =~= seq![head] + rest_view);
        r
    }
}

fn duplicate_obj(fields: &Vec<(Vec<char>, Value)>, from: usize) -> (r: Vec<(Vec<char>, Value)>)
    requires
        from <= fields@.len(),
    ensures
        r@.len() == fields@.len() - from,
        forall|k: int|
            0 <= k < r@.len() ==> (#[trigger] r@[k]).0@ == fields@[from + k].0@
                && r@[k].1.deep_view() == fields@[from + k].1.deep_view(),
    decreases fields@, (fields@.len() - from) as nat,
{
    if from == fields.len() {
        Vec::new()
    } else {
        let kc = crate::codec::copy_chars(&fields[from].0);
        let head = fields[from].1.duplicate();
        let rest = duplicate_obj(fields, from + 1);
        let ghost rest_view = rest@;
        let mut r = rest;
        r.insert(0, (kc, head));
        assert(r@ =~= seq![(kc, head)] + rest_view);
        r
    }
}

} // verus!
