//! The canonical value tree, the tree that the configuration parser hands
//! over, and the conversion from the latter to the former.
use vstd::prelude::*;

verus! {

broadcast use vstd::std_specs::vec::group_vec_axioms;

/// An object node's child as the parser reports it: a key, if the parser could
/// give one, and the child itself.
#[derive(Debug, PartialEq)]
pub struct SourceEntry {
    pub key: Option<String>,
    pub node: SourceNode,
}

/// A node of the configuration parser's object tree, as plain values.
/// Floating-point and time payloads travel as their IEEE-754 bit patterns.
#[derive(Debug, PartialEq)]
pub enum SourceNode {
    Null,
    Bool(bool),
    Int(i64),
    Float(u64),
    Str(String),
    Time(u64),
    Array(Vec<SourceNode>),
    Object(Vec<SourceEntry>),
    UserData,
}

/// The canonical value tree. Object keys are unique; entries keep the order
/// in which their keys first appeared.
#[derive(Debug, PartialEq)]
pub enum Value {
    Null,
    Bool(bool),
    Integer(i64),
    Float(u64),
    Str(String),
    Array(Vec<Value>),
    Object(Vec<(String, Value)>),
}

/// The mathematical model of a `Value`.
pub enum ValueModel {
    Null,
    Bool(bool),
    Integer(i64),
    Float(u64),
    Str(Seq<char>),
    Array(Seq<ValueModel>),
    Object(Seq<(Seq<char>, ValueModel)>),
}

/// Why a source tree could not be converted.
#[derive(PartialEq, Eq, Structural, Clone, Copy, Debug)]
pub enum ConvertError {
    /// The parser reported a kind of value that has no counterpart (user data).
    UnsupportedKind,
    /// A number is not finite and cannot be represented.
    NotFinite,
    /// An object child came without a key.
    MissingKey,
}

impl Value {
    pub open spec fn view(self) -> ValueModel
        decreases self,
    {
        match self {
            Value::Null => ValueModel::Null,
            Value::Bool(b) => ValueModel::Bool(b),
            Value::Integer(i) => ValueModel::Integer(i),
            Value::Float(b) => ValueModel::Float(b),
            Value::Str(s) => ValueModel::Str(s@),
            Value::Array(items) => ValueModel::Array(view_values(items@)),
            Value::Object(entries) => ValueModel::Object(view_entries(entries@)),
        }
    }
}

/// The models of a sequence of values, element by element.
pub open spec fn view_values(s: Seq<Value>) -> Seq<ValueModel>
    decreases s,
{
    if s.len() == 0 {
        Seq::empty()
    } else {
        view_values(s.drop_last()).push(s.last().view())
    }
}

/// The models of a sequence of object entries, entry by entry.
pub open spec fn view_entries(s: Seq<(String, Value)>) -> Seq<(Seq<char>, ValueModel)>
    decreases s,
{
    if s.len() == 0 {
        Seq::empty()
    } else {
        view_entries(s.drop_last()).push((s.last().0@, s.last().1.view()))
    }
}

/// The model of a sequence of entries holds each entry's key text and value
/// model, in order.
pub proof fn lemma_view_entries(s: Seq<(String, Value)>)
    ensures
        view_entries(s).len() == s.len(),
        forall|i: int|
            0 <= i < s.len() ==> #[trigger] view_entries(s)[i] == (s[i].0@, s[i].1.view()),
    decreases s.len(),
{
    if s.len() > 0 {
        lemma_view_entries(s.drop_last());
    }
}

/// No key occurs twice in a keyed sequence, the model of an object's entries.
pub open spec fn keys_unique<V>(m: Seq<(Seq<char>, V)>) -> bool {
    forall|i: int, j: int|
        0 <= i < m.len() && 0 <= j < m.len() && i != j ==> #[trigger] m[i].0 != #[trigger] m[j].0
}

pub open spec fn has_key<V>(m: Seq<(Seq<char>, V)>, k: Seq<char>) -> bool {
    exists|i: int| 0 <= i < m.len() && #[trigger] m[i].0 == k
}

/// The position of key `k` in `m`, where `has_key(m, k)`.
pub open spec fn key_index<V>(m: Seq<(Seq<char>, V)>, k: Seq<char>) -> int {
    choose|i: int| 0 <= i < m.len() && #[trigger] m[i].0 == k
}

/// What `m` holds under key `k`.
pub open spec fn lookup<V>(m: Seq<(Seq<char>, V)>, k: Seq<char>) -> Option<V> {
    if has_key(m, k) {
        Some(m[key_index(m, k)].1)
    } else {
        None
    }
}

/// Sets key `k` to `v`: in place where `k` is present, at the end otherwise.
pub open spec fn insert<V>(m: Seq<(Seq<char>, V)>, k: Seq<char>, v: V) -> Seq<(Seq<char>, V)> {
    if has_key(m, k) {
        m.update(key_index(m, k), (k, v))
    } else {
        m.push((k, v))
    }
}

/// Inserts the entries of `o` into `m`, in order; later entries win.
pub open spec fn insert_all<V>(m: Seq<(Seq<char>, V)>, o: Seq<(Seq<char>, V)>) -> Seq<(Seq<char>, V)>
    decreases o.len(),
{
    if o.len() == 0 {
        m
    } else {
        insert(insert_all(m, o.drop_last()), o.last().0, o.last().1)
    }
}

/// Setting a key keeps keys unique, gives the key its new value, and leaves
/// every other key as it was.
pub proof fn lemma_insert<V>(m: Seq<(Seq<char>, V)>, k: Seq<char>, v: V)
    requires
        keys_unique(m),
    ensures
        keys_unique(insert(m, k, v)),
        lookup(insert(m, k, v), k) == Some(v),
        forall|k2: Seq<char>| k2 != k ==> lookup(insert(m, k, v), k2) == lookup(m, k2),
        forall|k2: Seq<char>| has_key(insert(m, k, v), k2) <==> (has_key(m, k2) || k2 == k),
{
    let r = insert(m, k, v);
    if has_key(m, k) {
        let i = key_index(m, k);
        assert(r[i].0 == k);
        assert forall|k2: Seq<char>| has_key(r, k2) <==> (has_key(m, k2) || k2 == k) by {
            if has_key(m, k2) {
                let j = key_index(m, k2);
                assert(r[j].0 == k2);
            }
            if has_key(r, k2) {
                let j = key_index(r, k2);
                assert(m[j].0 == k2 || j == i);
            }
        }
        assert forall|k2: Seq<char>| k2 != k implies lookup(r, k2) == lookup(m, k2) by {
            if has_key(m, k2) {
                let j = key_index(m, k2);
                let j2 = key_index(r, k2);
                assert(r[j].0 == k2);
                assert(j2 == j);
            }
        }
    } else {
        let n = m.len() as int;
        assert(r[n].0 == k);
        assert forall|k2: Seq<char>| has_key(r, k2) <==> (has_key(m, k2) || k2 == k) by {
            if has_key(m, k2) {
                let j = key_index(m, k2);
                assert(r[j].0 == k2);
            }
        }
        assert forall|k2: Seq<char>| k2 != k implies lookup(r, k2) == lookup(m, k2) by {
            if has_key(m, k2) {
                let j = key_index(m, k2);
                let j2 = key_index(r, k2);
                assert(r[j].0 == k2);
                assert(j2 == j);
            }
        }
    }
}

/// Inserting a sequence of entries keeps keys unique; afterwards a key of the
/// inserted entries holds their value for it, and any other key holds what it
/// held before.
pub proof fn lemma_insert_all<V>(m: Seq<(Seq<char>, V)>, o: Seq<(Seq<char>, V)>)
    requires
        keys_unique(m),
    ensures
        keys_unique(insert_all(m, o)),
        forall|k: Seq<char>| !has_key(o, k) ==> lookup(insert_all(m, o), k) == lookup(m, k),
        forall|k: Seq<char>| keys_unique(o) && has_key(o, k) ==> lookup(insert_all(m, o), k) == lookup(o, k),
    decreases o.len(),
{
    if o.len() > 0 {
        let p = o.drop_last();
        let last = o.last();
        lemma_insert_all(m, p);
        lemma_insert(insert_all(m, p), last.0, last.1);
        assert forall|k: Seq<char>| !has_key(o, k) implies lookup(insert_all(m, o), k) == lookup(m, k) by {
            if has_key(p, k) {
                let j = key_index(p, k);
                assert(0 <= j < p.len() && p[j].0 == k);
                assert(o[j] == p[j]);
            }
            assert(o[o.len() - 1].0 == last.0);
        }
        assert forall|k: Seq<char>| keys_unique(o) && has_key(o, k) implies lookup(insert_all(m, o), k) == lookup(o, k) by {
            let n = o.len() - 1;
            assert(o[n] == last);
            let j = key_index(o, k);
            assert(0 <= j < o.len() && o[j].0 == k);
            if k == last.0 {
                assert(o[n].0 == k);
                assert(j == n);
            } else {
                assert(j != n);
                assert(p[j] == o[j]);
                assert(has_key(p, k));
                assert(keys_unique(p)) by {
                    assert forall|a: int, b: int|
                        0 <= a < p.len() && 0 <= b < p.len() && a != b implies #[trigger] p[a].0 != #[trigger] p[b].0 by {
                        assert(p[a] == o[a] && p[b] == o[b]);
                    }
                }
                let j2 = key_index(p, k);
                assert(0 <= j2 < p.len() && p[j2].0 == k);
                assert(o[j2] == p[j2]);
                assert(j2 == j);
            }
        }
    }
}

/// A value is well formed: every object in it, at any depth, has unique
/// keys.
pub open spec fn value_wf(v: ValueModel) -> bool
    decreases v,
{
    match v {
        ValueModel::Array(vs) => forall|i: int| 0 <= i < vs.len() ==> value_wf(#[trigger] vs[i]),
        ValueModel::Object(es) => keys_unique(es) && forall|i: int| 0 <= i < es.len() ==> value_wf(#[trigger] es[i].1),
        _ => true,
    }
}

/// Every value of a keyed sequence is well formed.
pub open spec fn values_wf(m: Seq<(Seq<char>, ValueModel)>) -> bool {
    forall|i: int| 0 <= i < m.len() ==> value_wf(#[trigger] m[i].1)
}

/// Setting a key to a well-formed value keeps every value well formed.
pub proof fn lemma_insert_values_wf(m: Seq<(Seq<char>, ValueModel)>, k: Seq<char>, v: ValueModel)
    requires
        values_wf(m),
        value_wf(v),
    ensures
        values_wf(insert(m, k, v)),
{
    let r = insert(m, k, v);
    assert forall|i: int| 0 <= i < r.len() implies value_wf(#[trigger] r[i].1) by {
        if has_key(m, k) {
            if i != key_index(m, k) {
                assert(r[i] == m[i]);
            }
        } else if i < m.len() {
            assert(r[i] == m[i]);
        }
    }
}

/// Inserting well-formed values keeps every value well formed.
pub proof fn lemma_insert_all_values_wf(m: Seq<(Seq<char>, ValueModel)>, o: Seq<(Seq<char>, ValueModel)>)
    requires
        values_wf(m),
        values_wf(o),
    ensures
        values_wf(insert_all(m, o)),
    decreases o.len(),
{
    if o.len() > 0 {
        let p = o.drop_last();
        assert forall|i: int| 0 <= i < p.len() implies value_wf(#[trigger] p[i].1) by {
            assert(p[i] == o[i]);
        }
        lemma_insert_all_values_wf(m, p);
        assert(value_wf(o[o.len() - 1].1));
        lemma_insert_values_wf(insert_all(m, p), o.last().0, o.last().1);
    }
}

/// Whatever the conversion gives is well formed.
pub proof fn lemma_converted_wf(n: SourceNode)
    ensures
        converted(n) matches Ok(v) ==> value_wf(v),
    decreases n,
{
    match n {
        SourceNode::Array(items) => {
            lemma_items_wf(items@);
        },
        SourceNode::Object(entries) => {
            lemma_entries_converted_wf(entries@);
        },
        _ => {},
    }
}

/// Converted sequences hold well-formed values.
proof fn lemma_items_wf(s: Seq<SourceNode>)
    ensures
        converted_items(s) matches Ok(vs) ==> forall|i: int| 0 <= i < vs.len() ==> value_wf(#[trigger] vs[i]),
    decreases s,
{
    if s.len() > 0 {
        lemma_items_wf(s.drop_last());
        lemma_converted_wf(s.last());
        if let Ok(vs) = converted_items(s.drop_last()) {
            if let Ok(v) = converted(s.last()) {
                let r = vs.push(v);
                assert forall|i: int| 0 <= i < r.len() implies value_wf(#[trigger] r[i]) by {
                    if i < vs.len() {
                        assert(r[i] == vs[i]);
                    }
                }
            }
        }
    }
}

/// Converted object entries have unique keys and well-formed values.
pub proof fn lemma_entries_converted_wf(s: Seq<SourceEntry>)
    ensures
        converted_entries(s) matches Ok(es) ==> keys_unique(es) && values_wf(es),
    decreases s,
{
    if s.len() > 0 {
        lemma_entries_converted_wf(s.drop_last());
        lemma_converted_wf(s.last().node);
        if let Ok(es) = converted_entries(s.drop_last()) {
            if let Some(k) = s.last().key {
                if let Ok(v) = converted(s.last().node) {
                    lemma_insert(es, k@, v);
                    lemma_insert_values_wf(es, k@, v);
                }
            }
        }
    }
}

/// The IEEE-754 double with these bits is finite.
pub open spec fn finite_bits(b: u64) -> bool {
    (b >> 52u64) & 0x7ffu64 != 0x7ffu64
}

/// What the conversion makes of a source node.
pub open spec fn converted(n: SourceNode) -> Result<ValueModel, ConvertError>
    decreases n,
{
    match n {
        SourceNode::Null => Ok(ValueModel::Null),
        SourceNode::Bool(b) => Ok(ValueModel::Bool(b)),
        SourceNode::Int(i) => Ok(ValueModel::Integer(i)),
        SourceNode::Float(b) => if finite_bits(b) {
            Ok(ValueModel::Float(b))
        } else {
            Err(ConvertError::NotFinite)
        },
        SourceNode::Time(b) => if finite_bits(b) {
            Ok(ValueModel::Float(b))
        } else {
            Err(ConvertError::NotFinite)
        },
        SourceNode::Str(s) => Ok(ValueModel::Str(s@)),
        SourceNode::Array(items) => match converted_items(items@) {
            Ok(vs) => Ok(ValueModel::Array(vs)),
            Err(e) => Err(e),
        },
        SourceNode::Object(entries) => match converted_entries(entries@) {
            Ok(es) => Ok(ValueModel::Object(es)),
            Err(e) => Err(e),
        },
        SourceNode::UserData => Err(ConvertError::UnsupportedKind),
    }
}

/// Converts the nodes in order; the first failure is the result.
pub open spec fn converted_items(s: Seq<SourceNode>) -> Result<Seq<ValueModel>, ConvertError>
    decreases s,
{
    if s.len() == 0 {
        Ok(Seq::empty())
    } else {
        match converted_items(s.drop_last()) {
            Err(e) => Err(e),
            Ok(vs) => match converted(s.last()) {
                Err(e) => Err(e),
                Ok(v) => Ok(vs.push(v)),
            },
        }
    }
}

/// Converts the entries in order into an object; a later key replaces the
/// value of an earlier one; the first failure is the result.
pub open spec fn converted_entries(s: Seq<SourceEntry>) -> Result<Seq<(Seq<char>, ValueModel)>, ConvertError>
    decreases s,
{
    if s.len() == 0 {
        Ok(Seq::empty())
    } else {
        match converted_entries(s.drop_last()) {
            Err(e) => Err(e),
            Ok(es) => match s.last().key {
                None => Err(ConvertError::MissingKey),
                Some(k) => match converted(s.last().node) {
                    Err(e) => Err(e),
                    Ok(v) => Ok(insert(es, k@, v)),
                },
            },
        }
    }
}

/// The model a scalar source node stands for: the same kind with the same
/// payload; a time becomes the number of its epoch value.
pub open spec fn scalar_model(n: SourceNode) -> Option<ValueModel> {
    match n {
        SourceNode::Null => Some(ValueModel::Null),
        SourceNode::Bool(b) => Some(ValueModel::Bool(b)),
        SourceNode::Int(i) => Some(ValueModel::Integer(i)),
        SourceNode::Float(b) => Some(ValueModel::Float(b)),
        SourceNode::Time(b) => Some(ValueModel::Float(b)),
        SourceNode::Str(s) => Some(ValueModel::Str(s@)),
        _ => None,
    }
}

/// Every representable scalar converts to a value of its own kind holding
/// exactly its payload: an integer stays an integer (never a float), a string
/// keeps its text, a finite float keeps its bits. Only a non-finite number is
/// refused.
pub proof fn lemma_scalar_round_trip(n: SourceNode)
    requires
        scalar_model(n) is Some,
    ensures
        non_finite_number(n) ==> converted(n) == Err::<ValueModel, ConvertError>(ConvertError::NotFinite),
        !non_finite_number(n) ==> converted(n) == Ok::<ValueModel, ConvertError>(scalar_model(n)->0),
{
}

/// A float or time whose value is not finite.
pub open spec fn non_finite_number(n: SourceNode) -> bool {
    match n {
        SourceNode::Float(b) => !finite_bits(b),
        SourceNode::Time(b) => !finite_bits(b),
        _ => false,
    }
}

/// Where an error came first, the conversion of a longer sequence fails with it too.
proof fn lemma_items_err_extends(s: Seq<SourceNode>, i: int)
    requires
        0 <= i <= s.len(),
        converted_items(s.subrange(0, i)) is Err,
    ensures
        converted_items(s) == converted_items(s.subrange(0, i)),
    decreases s.len() - i,
{
    if i < s.len() {
        let q = s.subrange(0, i + 1);
        assert(q.drop_last() =~= s.subrange(0, i));
        lemma_items_err_extends(s, i + 1);
    } else {
        assert(s.subrange(0, i) =~= s);
    }
}

proof fn lemma_entries_err_extends(s: Seq<SourceEntry>, i: int)
    requires
        0 <= i <= s.len(),
        converted_entries(s.subrange(0, i)) is Err,
    ensures
        converted_entries(s) == converted_entries(s.subrange(0, i)),
    decreases s.len() - i,
{
    if i < s.len() {
        let q = s.subrange(0, i + 1);
        assert(q.drop_last() =~= s.subrange(0, i));
        lemma_entries_err_extends(s, i + 1);
    } else {
        assert(s.subrange(0, i) =~= s);
    }
}

/// Sets `key` to `v` among an object's entries: in place where the key is
/// present, at the end otherwise.
pub fn insert_entry(entries: &mut Vec<(String, Value)>, key: String, v: Value)
    requires
        keys_unique(view_entries(old(entries)@)),
    ensures
        view_entries(final(entries)@) == insert(view_entries(old(entries)@), key@, v@),
        keys_unique(view_entries(final(entries)@)),
{
    let ghost old_view = view_entries(entries@);
    proof {
        lemma_view_entries(entries@);
        lemma_insert(old_view, key@, v@);
    }
    let mut i: usize = 0;
    while i < entries.len()
        invariant
            0 <= i <= entries.len(),
            entries@ == old(entries)@,
            old_view == view_entries(entries@),
            old_view.len() == entries@.len(),
            forall|j: int| 0 <= j < entries@.len() ==> #[trigger] old_view[j] == (entries@[j].0@, entries@[j].1@),
            forall|j: int| 0 <= j < i ==> old_view[j].0 != key@,
            keys_unique(old_view),
            keys_unique(insert(old_view, key@, v@)),
        decreases entries.len() - i,
    {
        if entries[i].0 == key {
            proof {
                assert(old_view[i as int].0 == key@);
                assert(has_key(old_view, key@));
                let k = key_index(old_view, key@);
                assert(old_view[k].0 == key@);
                assert(k == i);
            }
            let ghost before = entries@;
            entries[i] = (key, v);
            proof {
                lemma_view_entries(entries@);
                assert(view_entries(entries@) =~= old_view.update(i as int, (key@, v@))) by {
                    assert forall|j: int| 0 <= j < entries@.len() implies view_entries(entries@)[j]
                        == old_view.update(i as int, (key@, v@))[j] by {
                        if j != i {
                            assert(entries@[j] == before[j]);
                        }
                    }
                }
            }
            return;
        }
        i = i + 1;
    }
    proof {
        assert(!has_key(old_view, key@)) by {
            if has_key(old_view, key@) {
                let k = key_index(old_view, key@);
                assert(old_view[k].0 == key@);
            }
        }
    }
    let ghost before = entries@;
    entries.push((key, v));
    proof {
        lemma_view_entries(entries@);
        assert(view_entries(entries@) =~= old_view.push((key@, v@))) by {
            assert forall|j: int| 0 <= j < entries@.len() implies view_entries(entries@)[j]
                == old_view.push((key@, v@))[j] by {
                if j < before.len() {
                    assert(entries@[j] == before[j]);
                }
            }
        }
    }
}

/// Tells whether the double with bits `b` is finite: its exponent field is
/// not all ones.
pub fn is_finite_bits(b: u64) -> (r: bool)
    ensures
        r == finite_bits(b),
{
    (b >> 52u64) & 0x7ffu64 != 0x7ffu64
}

/// Converts a source tree into a value tree. Arrays and objects are converted
/// child by child, depth first; the first failure ends the conversion.
pub fn object_ref_to_value(n: &SourceNode) -> (r: Result<Value, ConvertError>)
    ensures
        r matches Ok(v) ==> converted(*n) == Ok::<ValueModel, ConvertError>(v@),
        r matches Err(e) ==> converted(*n) == Err::<ValueModel, ConvertError>(e),
    decreases n,
{
    match n {
        SourceNode::Null => Ok(Value::Null),
        SourceNode::Bool(b) => Ok(Value::Bool(*b)),
        SourceNode::Int(i) => Ok(Value::Integer(*i)),
        SourceNode::Float(b) => if is_finite_bits(*b) {
            Ok(Value::Float(*b))
        } else {
            Err(ConvertError::NotFinite)
        },
        SourceNode::Time(b) => if is_finite_bits(*b) {
            Ok(Value::Float(*b))
        } else {
            Err(ConvertError::NotFinite)
        },
        SourceNode::Str(s) => Ok(Value::Str(s.clone())),
        SourceNode::UserData => Err(ConvertError::UnsupportedKind),
        SourceNode::Array(items) => {
            let mut out: Vec<Value> = Vec::new();
            let mut i: usize = 0;
            proof {
                assert(items@.subrange(0, 0) =~= Seq::<SourceNode>::empty());
                assert(out@ =~= Seq::<Value>::empty());
            }
            while i < items.len()
                invariant
                    0 <= i <= items.len(),
                    *n == SourceNode::Array(*items),
                    converted_items(items@.subrange(0, i as int)) == Ok::<Seq<ValueModel>, ConvertError>(view_values(out@)),
                decreases items.len() - i,
            {
                proof {
                    assert(decreases_to!(*items => items[i as int]));
                    assert(decreases_to!(*n => items[i as int]));
                }
                let c = object_ref_to_value(&items[i]);
                proof {
                    let q = items@.subrange(0, i as int + 1);
                    assert(q.drop_last() =~= items@.subrange(0, i as int));
                    assert(q.last() == items@[i as int]);
                }
                match c {
                    Err(e) => {
                        proof {
                            lemma_items_err_extends(items@, i as int + 1);
                        }
                        return Err(e);
                    },
                    Ok(v) => {
                        let ghost before = out@;
                        out.push(v);
                        proof {
                            assert(out@.drop_last() =~= before);
                        }
                    },
                }
                i = i + 1;
            }
            proof {
                assert(items@.subrange(0, items@.len() as int) =~= items@);
            }
            Ok(Value::Array(out))
        },
        SourceNode::Object(entries) => {
            let mut out: Vec<(String, Value)> = Vec::new();
            let mut i: usize = 0;
            proof {
                assert(entries@.subrange(0, 0) =~= Seq::<SourceEntry>::empty());
                assert(out@ =~= Seq::<(String, Value)>::empty());
            }
            while i < entries.len()
                invariant
                    0 <= i <= entries.len(),
                    *n == SourceNode::Object(*entries),
                    converted_entries(entries@.subrange(0, i as int)) == Ok::<Seq<(Seq<char>, ValueModel)>, ConvertError>(view_entries(out@)),
                    keys_unique(view_entries(out@)),
                decreases entries.len() - i,
            {
                proof {
                    let q = entries@.subrange(0, i as int + 1);
                    assert(q.drop_last() =~= entries@.subrange(0, i as int));
                    assert(q.last() == entries@[i as int]);
                }
                let entry = &entries[i];
                match &entry.key {
                    None => {
                        proof {
                            lemma_entries_err_extends(entries@, i as int + 1);
                        }
                        return Err(ConvertError::MissingKey);
                    },
                    Some(k) => {
                        proof {
                            assert(decreases_to!(*entries => entries[i as int]));
                            assert(decreases_to!(entries[i as int] => entries[i as int].node));
                            assert(decreases_to!(*n => entry.node));
                        }
                        match object_ref_to_value(&entry.node) {
                            Err(e) => {
                                proof {
                                    lemma_entries_err_extends(entries@, i as int + 1);
                                }
                                return Err(e);
                            },
                            Ok(v) => {
                                insert_entry(&mut out, k.clone(), v);
                            },
                        }
                    },
                }
                i = i + 1;
            }
            proof {
                assert(entries@.subrange(0, entries@.len() as int) =~= entries@);
            }
            Ok(Value::Object(out))
        },
    }
}

} // verus!
