//! The tie between a collection and the OpenAPI document it was made from.

use vstd::prelude::*;

use crate::exec::text_pairs;
use crate::map::{put_all, TextMap};

verus! {

/// A collection's OpenAPI document, and the operation of each request file.
#[derive(Debug)]
pub struct OpenApiBinding {
    pub spec_path: String,
    pub operations: TextMap<String>,
}

/// Tie each request file to the operation that it was made for. Where a file
/// comes twice, the later operation stays.
pub fn build_binding(spec_path: &str, pairs: &Vec<(String, String)>) -> (r: OpenApiBinding)
    ensures
        r.spec_path@ == spec_path@,
        r.operations@ == put_all(Seq::empty(), text_pairs(pairs@)),
{
    let ghost all = text_pairs(pairs@);
    let mut operations: TextMap<String> = TextMap::new();
    let mut i: usize = 0;
    assert(all.take(0) =~= Seq::empty());
    while i < pairs.len()
        invariant
            i <= pairs.len(),
            all == text_pairs(pairs@),
            operations@ == put_all(Seq::empty(), all.take(i as int)),
        decreases pairs.len() - i,
    {
        assert(all.take(i + 1).drop_last() =~= all.take(i as int));
        assert(all.take(i + 1).last() == all[i as int]);
        let _ = operations.insert(pairs[i].0.clone(), pairs[i].1.clone());
        i += 1;
    }
    assert(all.take(i as int) =~= all);
    OpenApiBinding { spec_path: spec_path.to_owned(), operations }
}

} // verus!
