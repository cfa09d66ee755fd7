//! Template expansion through `just_template`: parameters `<<<name>>>`,
//! display blocks and implementation areas.
use vstd::prelude::*;
use crate::answers::keys_distinct;

verus! {

/// The parameters as pairs of character sequences.
pub open spec fn param_views(params: Seq<(String, String)>) -> Seq<(Seq<char>, Seq<char>)> {
    params.map_values(|p: (String, String)| (p.0@, p.1@))
}

/// What `just_template` makes of `template` with the parameters `params`
/// substituted one at a time, in the order given: `None` when the
/// template's implementation areas are malformed.
pub uninterp spec fn template_expansion_of(template: Seq<char>, params: Seq<(Seq<char>, Seq<char>)>) -> Option<
    Seq<char>,
>;

/// Expands `template` with `params` through `just_template::Template`
/// (`from`, `insert_param` for each pair, `expand`). The template keeps its
/// parameters in a `HashMap` and substitutes them in that map's walk order,
/// which each process seeds; so of parameters with distinct names, the
/// text is the expansion in some order of them, and which order is not
/// stated. Whether expansion succeeds depends on the template alone (its
/// implementation areas are read before any parameter is used); with at
/// most one parameter there is one order.
#[verifier::external_body]
pub(crate) fn expand_template(template: &str, params: &Vec<(String, String)>) -> (r: Option<String>)
    ensures
        (r is Some) == (template_expansion_of(template@, Seq::empty()) is Some),
        param_views(params@).len() <= 1 ==> template_expansion_of(template@, param_views(params@)) == match r {
            Some(t) => Some(t@),
            None => None::<Seq<char>>,
        },
        keys_distinct(param_views(params@)) ==> (r matches Some(t) ==> exists|ps: Seq<(Seq<char>, Seq<char>)>|
            ps.to_multiset() == param_views(params@).to_multiset() && #[trigger] template_expansion_of(template@, ps)
                == Some(t@)),
{
    let mut t = just_template::Template::from(template);
    for (k, v) in params {
        t.insert_param(k.clone(), v.clone());
    }
    t.expand()
}

} // verus!
