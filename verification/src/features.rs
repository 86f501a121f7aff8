//! Feature schema and the feature mapper.
//!
//! An inference request carries an ordered numeric feature vector; the tree
//! models address features by name.  The mapper pairs the fixed positional
//! schema with the vector entries, stopping at the shorter of the two: extra
//! vector entries are discarded and schema names beyond the vector are
//! simply absent from the result (lookups report absence; any defaulting is
//! the caller's policy).

use vstd::prelude::*;

verus! {

/// Names of the fixed schema, in positional order.
pub open spec fn spec_schema() -> Seq<Seq<char>> {
    seq!["Age"@, "Sex_female"@, "Sex_male"@, "Pclass_1"@, "Pclass_2"@, "Pclass_3"@]
}

/// Builds the fixed schema: the names the models address, one per position
/// of the feature vector.
pub fn feature_schema() -> (schema: Vec<String>)
    ensures
        schema@.len() == spec_schema().len(),
        forall|i: int| 0 <= i < schema@.len() ==> schema@[i]@ == spec_schema()[i],
{
    let mut schema: Vec<String> = Vec::new();
    schema.push("Age".to_owned());
    schema.push("Sex_female".to_owned());
    schema.push("Sex_male".to_owned());
    schema.push("Pclass_1".to_owned());
    schema.push("Pclass_2".to_owned());
    schema.push("Pclass_3".to_owned());
    schema
}

/// A feature vector bound to the schema names: name/value pairs in schema
/// order, with every value a double-precision bit pattern.
pub struct NamedFeatures {
    pub pairs: Vec<(String, u64)>,
}

impl View for NamedFeatures {
    type V = Seq<(Seq<char>, u64)>;

    open spec fn view(&self) -> Seq<(Seq<char>, u64)> {
        self.pairs@.map(|i: int, p: (String, u64)| (p.0@, p.1))
    }
}

/// Value bound to the first pair named `name`, if any.
pub open spec fn spec_lookup(pairs: Seq<(Seq<char>, u64)>, name: Seq<char>) -> Option<u64>
    decreases pairs.len(),
{
    if pairs.len() == 0 {
        None
    } else if pairs[0].0 == name {
        Some(pairs[0].1)
    } else {
        spec_lookup(pairs.skip(1), name)
    }
}

impl NamedFeatures {
    /// Looks `name` up among the bound features; `None` means the name is
    /// absent, not that it is zero.
    pub fn lookup(&self, name: &String) -> (r: Option<u64>)
        ensures
            r == spec_lookup(self@, name@),
    {
        let n = self.pairs.len();
        proof {
            assert(self@.skip(0) =~= self@);
        }
        for i in 0..n
            invariant
                n == self.pairs@.len(),
                spec_lookup(self@, name@) == spec_lookup(self@.skip(i as int), name@),
        {
            proof {
                assert(self@.skip(i as int)[0] == self@[i as int]);
                assert(self@.skip(i as int).skip(1) =~= self@.skip(i as int + 1));
            }
            if self.pairs[i].0 == *name {
                return Some(self.pairs[i].1);
            }
        }
        proof {
            assert(self@.skip(n as int).len() == 0);
        }
        None
    }
}

/// The pairing the mapper produces: position `i` of the result binds
/// `schema[i]` to `values[i]`, up to the shorter of the two sequences.
pub open spec fn spec_map_features(schema: Seq<Seq<char>>, values: Seq<u64>) -> Seq<
    (Seq<char>, u64),
> {
    Seq::new(
        if schema.len() <= values.len() {
            schema.len()
        } else {
            values.len()
        },
        |i: int| (schema[i], values[i]),
    )
}

/// Binds an ordered feature vector to a schema positionally.  No length
/// validation is performed: pairing stops at the shorter of the two.
pub fn map_features(schema: &Vec<String>, values: &Vec<u64>) -> (nf: NamedFeatures)
    ensures
        nf@ == spec_map_features(schema@.map(|i: int, s: String| s@), values@),
{
    let n = if schema.len() <= values.len() {
        schema.len()
    } else {
        values.len()
    };
    let mut pairs: Vec<(String, u64)> = Vec::new();
    for i in 0..n
        invariant
            n <= schema@.len(),
            n <= values@.len(),
            pairs@.len() == i,
            forall|j: int| 0 <= j < i ==> #[trigger] pairs@[j] == (schema@[j], values@[j]),
    {
        pairs.push((schema[i].clone(), values[i]));
    }
    let nf = NamedFeatures { pairs };
    proof {
        assert(nf@ =~= spec_map_features(schema@.map(|i: int, s: String| s@), values@));
    }
    nf
}

} // verus!
