//! Generic structured model values.
//!
//! Persisted models arrive as a generic structured document (objects, lists,
//! text and numbers).  The engine consumes that shape through its own value
//! type, with every number carried as a double-precision bit pattern; the
//! edge around the library converts whatever concrete document format it
//! parsed into this type before handing it to the decoders.

use vstd::prelude::*;

verus! {

/// A structured value as read from persisted model storage.
pub enum ModelValue {
    /// A number, as the bit pattern of a double.
    Number(u64),
    /// A piece of text.
    Text(String),
    /// An ordered list of values.
    List(Vec<ModelValue>),
    /// An object: named fields in document order.
    Object(Vec<(String, ModelValue)>),
}

/// First field of `fields` named `name`, if any.
pub open spec fn spec_field(fields: Seq<(String, ModelValue)>, name: Seq<char>) -> Option<
    ModelValue,
>
    decreases fields.len(),
{
    if fields.len() == 0 {
        None
    } else if fields[0].0@ == name {
        Some(fields[0].1)
    } else {
        spec_field(fields.skip(1), name)
    }
}

/// Looks up the first field of `fields` named `name`.
pub fn lookup_field<'a>(fields: &'a Vec<(String, ModelValue)>, name: &String) -> (r: Option<
    &'a ModelValue,
>)
    ensures
        match r {
            Some(v) => spec_field(fields@, name@) == Some(*v),
            None => spec_field(fields@, name@) is None,
        },
{
    let n = fields.len();
    proof {
        assert(fields@.skip(0) =~= fields@);
    }
    for i in 0..n
        invariant
            n == fields@.len(),
            spec_field(fields@, name@) == spec_field(fields@.skip(i as int), name@),
    {
        proof {
            assert(fields@.skip(i as int)[0] == fields@[i as int]);
            assert(fields@.skip(i as int).skip(1) =~= fields@.skip(i as int + 1));
        }
        if fields[i].0 == *name {
            return Some(&fields[i].1);
        }
    }
    proof {
        assert(fields@.skip(n as int).len() == 0);
    }
    None
}

/// A field's value is the value of some position of the field list.
pub proof fn lemma_field_index(fields: Seq<(String, ModelValue)>, name: Seq<char>)
    requires
        spec_field(fields, name) is Some,
    ensures
        exists|i: int|
            0 <= i < fields.len() && Some(#[trigger] fields[i].1) == spec_field(fields, name),
    decreases fields.len(),
{
    if fields.len() > 0 {
        if fields[0].0@ == name {
            assert(Some(fields[0].1) == spec_field(fields, name));
        } else {
            lemma_field_index(fields.skip(1), name);
            let i = choose|i: int|
                0 <= i < fields.skip(1).len() && Some(#[trigger] fields.skip(1)[i].1)
                    == spec_field(fields.skip(1), name);
            assert(Some(fields[i + 1].1) == spec_field(fields, name));
        }
    }
}

/// A field's value stands strictly below the object that holds it in the
/// structural order recursion descends along.
pub proof fn lemma_field_decreases(fields: Vec<(String, ModelValue)>, name: Seq<char>, x: ModelValue)
    requires
        spec_field(fields@, name) == Some(x),
    ensures
        decreases_to!(ModelValue::Object(fields) => x),
{
    lemma_field_index(fields@, name);
    let i = choose|i: int|
        0 <= i < fields@.len() && Some(#[trigger] fields@[i].1) == spec_field(fields@, name);
    let v = ModelValue::Object(fields);
    assert(decreases_to!(v => v->Object_0));
    assert(decreases_to!(fields => fields@));
    assert(decreases_to!(fields@ => fields@[i]));
    assert(decreases_to!(fields@[i] => fields@[i].1));
}

} // verus!
