use std::collections::HashMap;
use vstd::prelude::*;

verus! {

/// Query or form parameters as a map from key to value.
pub open spec fn query_of(params: HashMap<String, String>) -> Map<Seq<char>, Seq<char>> {
    params.deep_view()
}

/// The parameters hold no key at all.
pub open spec fn is_empty_query(q: Map<Seq<char>, Seq<char>>) -> bool {
    q == Map::<Seq<char>, Seq<char>>::empty()
}

/// Relies on `HashMap::get` keyed by `String` and looked up by `&str`: the
/// value stored under the key, if any.
#[verifier::external_body]
pub(crate) fn param_value<'a>(params: &'a HashMap<String, String>, key: &str) -> (r: Option<
    &'a String,
>)
    ensures
        r is Some <==> params.deep_view().contains_key(key@),
        r is Some ==> params.deep_view()[key@] == r->Some_0@,
{
    params.get(key)
}

/// Relies on `HashMap::is_empty`: true exactly when no key is stored.
#[verifier::external_body]
pub(crate) fn params_empty(params: &HashMap<String, String>) -> (r: bool)
    ensures
        r <==> is_empty_query(params.deep_view()),
{
    params.is_empty()
}

} // verus!
