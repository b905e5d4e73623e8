//! The generic document model: an ordered list of named fields with unique
//! names, viewed in specifications both as the field sequence and as the map
//! from names to values.

use vstd::prelude::*;

verus! {

/// A field value at the specification level.
pub enum Val {
    Text(Seq<char>),
    Int(i64),
    Bool(bool),
}

/// A field value a document can hold.
#[derive(Debug)]
pub enum Value {
    Text(String),
    Int(i64),
    Bool(bool),
}

impl View for Value {
    type V = Val;

    open spec fn view(&self) -> Val {
        match self {
            Value::Text(s) => Val::Text(s@),
            Value::Int(n) => Val::Int(*n),
            Value::Bool(b) => Val::Bool(*b),
        }
    }
}

impl Clone for Value {
    /// A copy of the value with the same view.
    fn clone(&self) -> (r: Self)
        ensures
            r@ == self@,
    {
        match self {
            Value::Text(s) => Value::Text(s.clone()),
            Value::Int(n) => Value::Int(*n),
            Value::Bool(b) => Value::Bool(*b),
        }
    }
}

/// One named field of a document.
#[derive(Debug)]
pub struct Field {
    pub name: String,
    pub value: Value,
}

/// Whether a character sequence can be a field name: it holds no NUL
/// character (the encoding writes names as NUL-terminated strings) and does
/// not open with the dollar sign that the encoding's readers reserve for
/// their extended syntax.
pub open spec fn key_ok(k: Seq<char>) -> bool {
    &&& !k.contains('\0')
    &&& k.len() > 0 ==> k[0] != '$'
}

/// Whether a field sequence is well formed: names are unique and usable.
pub open spec fn entries_wf(s: Seq<(Seq<char>, Val)>) -> bool {
    &&& forall|i: int, j: int| 0 <= i < j < s.len() ==> (#[trigger] s[i]).0 != (#[trigger] s[j]).0
    &&& forall|i: int| 0 <= i < s.len() ==> key_ok((#[trigger] s[i]).0)
}

/// The name-to-value map a field sequence denotes; later fields win.
pub open spec fn map_of(s: Seq<(Seq<char>, Val)>) -> Map<Seq<char>, Val>
    decreases s.len(),
{
    if s.len() == 0 {
        Map::empty()
    } else {
        map_of(s.drop_last()).insert(s.last().0, s.last().1)
    }
}

/// A name is in the map exactly when some field carries it.
pub proof fn lemma_map_of_contains(s: Seq<(Seq<char>, Val)>, key: Seq<char>)
    ensures
        map_of(s).contains_key(key) <==> exists|i: int| 0 <= i < s.len() && (#[trigger] s[i]).0 == key,
    decreases s.len(),
{
    if s.len() > 0 {
        lemma_map_of_contains(s.drop_last(), key);
        if map_of(s).contains_key(key) {
            if s.last().0 == key {
                assert((s[s.len() - 1]).0 == key);
            } else {
                let i = choose|i: int| 0 <= i < s.len() - 1 && (#[trigger] s.drop_last()[i]).0 == key;
                assert((s[i]).0 == key);
            }
        }
        if exists|i: int| 0 <= i < s.len() && (#[trigger] s[i]).0 == key {
            let i = choose|i: int| 0 <= i < s.len() && (#[trigger] s[i]).0 == key;
            if i < s.len() - 1 {
                assert((s.drop_last()[i]).0 == key);
            }
        }
    }
}

/// With unique names, each field is what the map holds under its name.
pub proof fn lemma_map_of_index(s: Seq<(Seq<char>, Val)>, i: int)
    requires
        entries_wf(s),
        0 <= i < s.len(),
    ensures
        map_of(s).contains_key(s[i].0),
        map_of(s)[s[i].0] == s[i].1,
    decreases s.len(),
{
    if i < s.len() - 1 {
        assert(entries_wf(s.drop_last())) by {
            assert(forall|a: int, b: int|
                0 <= a < b < s.len() - 1 ==> (#[trigger] s.drop_last()[a]).0 != (
                #[trigger] s.drop_last()[b]).0);
            assert(forall|a: int|
                0 <= a < s.len() - 1 ==> key_ok((#[trigger] s.drop_last()[a]).0));
        }
        lemma_map_of_index(s.drop_last(), i);
        assert(s[i].0 != s.last().0);
    }
}

/// Removing field `i` removes its name from the map.
pub proof fn lemma_map_of_remove(s: Seq<(Seq<char>, Val)>, i: int)
    requires
        entries_wf(s),
        0 <= i < s.len(),
    ensures
        map_of(s.remove(i)) == map_of(s).remove(s[i].0),
        entries_wf(s.remove(i)),
        forall|j: int| 0 <= j < s.len() - 1 ==> (#[trigger] s.remove(i)[j]).0 != s[i].0,
    decreases s.len(),
{
    let key = s[i].0;
    assert(entries_wf(s.drop_last())) by {
        assert(forall|a: int, b: int|
            0 <= a < b < s.len() - 1 ==> (#[trigger] s.drop_last()[a]).0 != (
            #[trigger] s.drop_last()[b]).0);
        assert(forall|a: int|
            0 <= a < s.len() - 1 ==> key_ok((#[trigger] s.drop_last()[a]).0));
    }
    if i == s.len() - 1 {
        assert(s.remove(i) =~= s.drop_last());
        lemma_map_of_contains(s.drop_last(), key);
        assert(!map_of(s.drop_last()).contains_key(key));
        assert(map_of(s).remove(key) =~= map_of(s.drop_last()));
    } else {
        lemma_map_of_remove(s.drop_last(), i);
        assert(s.remove(i).drop_last() =~= s.drop_last().remove(i));
        assert(s.remove(i).last() == s.last());
        assert(map_of(s.remove(i)) == map_of(s.drop_last().remove(i)).insert(
            s.last().0,
            s.last().1,
        ));
        assert(s.last().0 != key);
        assert(map_of(s.drop_last()).remove(key).insert(s.last().0, s.last().1) =~= map_of(
            s,
        ).remove(key));
        assert(forall|j: int|
            0 <= j < s.len() - 1 ==> (#[trigger] s.remove(i)[j]).0 != key) by {
            assert(forall|j: int| 0 <= j < i ==> s.remove(i)[j] == s[j]);
            assert(forall|j: int| i <= j < s.len() - 1 ==> s.remove(i)[j] == s[j + 1]);
        }
        assert(entries_wf(s.remove(i))) by {
            assert(forall|j: int| 0 <= j < i ==> s.remove(i)[j] == s[j]);
            assert(forall|j: int| i <= j < s.len() - 1 ==> s.remove(i)[j] == s[j + 1]);
        }
    }
}

/// A document: named fields with unique names, in insertion order.
#[derive(Debug)]
pub struct Doc {
    pub(crate) fields: Vec<Field>,
}

/// The specification-level entries of a field list.
pub open spec fn entries_of(fields: Seq<Field>) -> Seq<(Seq<char>, Val)> {
    fields.map_values(|f: Field| (f.name@, f.value@))
}

impl View for Doc {
    type V = Seq<(Seq<char>, Val)>;

    closed spec fn view(&self) -> Seq<(Seq<char>, Val)> {
        entries_of(self.fields@)
    }
}

impl Doc {
    /// Names are unique and name no NUL character.
    #[verifier::type_invariant]
    pub open spec fn wf(self) -> bool {
        entries_wf(self@)
    }

    /// The map from field names to values this document denotes.
    pub open spec fn as_map(self) -> Map<Seq<char>, Val> {
        map_of(self@)
    }

    /// The document with no fields.
    pub fn new() -> (r: Doc)
        ensures
            r@ == Seq::<(Seq<char>, Val)>::empty(),
            r.as_map() == Map::<Seq<char>, Val>::empty(),
    {
        let r = Doc { fields: Vec::new() };
        proof {
            assert(r@ =~= Seq::<(Seq<char>, Val)>::empty());
        }
        r
    }

    /// The number of fields.
    pub fn len(&self) -> (r: usize)
        ensures
            r == self@.len(),
    {
        self.fields.len()
    }

    /// The index of the field carrying `name`, if one does.
    fn find(fields: &Vec<Field>, name: &String) -> (r: Option<usize>)
        ensures
            match r {
                Some(i) => i < fields@.len() && entries_of(fields@)[i as int].0 == name@,
                None => forall|j: int|
                    0 <= j < fields@.len() ==> (#[trigger] entries_of(fields@)[j]).0 != name@,
            },
    {
        let mut i: usize = 0;
        while i < fields.len()
            invariant
                i <= fields@.len(),
                forall|j: int| 0 <= j < i ==> (#[trigger] entries_of(fields@)[j]).0 != name@,
            decreases fields@.len() - i,
        {
            if fields[i].name == *name {
                return Some(i);
            }
            i += 1;
        }
        None
    }

    /// Set a field: replace the value under `name` if present, else add the
    /// field. Afterwards the document denotes the old map with `name` bound
    /// to `value`.
    pub fn set(&mut self, name: String, value: Value)
        requires
            key_ok(name@),
        ensures
            final(self).as_map() == old(self).as_map().insert(name@, value@),
            final(self)@.len() <= old(self)@.len() + 1,
    {
        proof {
            use_type_invariant(&*self);
        }
        let ghost s0 = self@;
        let mut work: Vec<Field> = Vec::new();
        core::mem::swap(&mut self.fields, &mut work);
        proof {
            assert(entries_of(Seq::<Field>::empty()) =~= Seq::<(Seq<char>, Val)>::empty());
            assert(self@ =~= Seq::<(Seq<char>, Val)>::empty());
        }
        match Self::find(&work, &name) {
            Some(i) => {
                proof {
                    lemma_map_of_remove(s0, i as int);
                    lemma_map_of_index(s0, i as int);
                }
                work.remove(i);
                let ghost s1 = entries_of(work@);
                proof {
                    assert(s1 =~= s0.remove(i as int));
                }
                work.push(Field { name, value });
                proof {
                    let s2 = entries_of(work@);
                    assert(s2.drop_last() =~= s1);
                    assert(s2.last() == (name@, value@));
                    assert(map_of(s2) =~= map_of(s0).insert(name@, value@));
                    assert(entries_wf(s2)) by {
                        assert(forall|j: int| 0 <= j < s1.len() ==> s2[j] == s1[j]);
                    }
                }
            },
            None => {
                proof {
                    lemma_map_of_contains(s0, name@);
                }
                work.push(Field { name, value });
                proof {
                    let s2 = entries_of(work@);
                    assert(s2.drop_last() =~= s0);
                    assert(s2.last() == (name@, value@));
                    assert(map_of(s2) =~= map_of(s0).insert(name@, value@));
                    assert(entries_wf(s2)) by {
                        assert(forall|j: int| 0 <= j < s0.len() ==> s2[j] == s0[j]);
                    }
                }
            },
        }
        core::mem::swap(&mut self.fields, &mut work);
    }

    /// Look a field up by name.
    pub fn get(&self, name: &String) -> (r: Option<&Value>)
        ensures
            match r {
                Some(v) => self.as_map().contains_key(name@) && v@ == self.as_map()[name@],
                None => !self.as_map().contains_key(name@),
            },
    {
        proof {
            use_type_invariant(self);
        }
        match Self::find(&self.fields, name) {
            Some(i) => {
                proof {
                    lemma_map_of_index(self@, i as int);
                }
                Some(&self.fields[i].value)
            },
            None => {
                proof {
                    lemma_map_of_contains(self@, name@);
                }
                None
            },
        }
    }
}

} // verus!
