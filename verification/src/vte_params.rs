//! The parameter lists of CSI sequences as the `vte` parser hands them over.

use vstd::prelude::*;

verus! {

/// The parameter list of the `vte` parser, passed through as it is; what it
/// holds is named by `params_groups`.
#[verifier::external_type_specification]
#[verifier::external_body]
pub struct ExParams(vte::Params);

/// The parameters that a `vte::Params` holds, in order, each with its
/// subparameters (`38:2:r:g:b` is one parameter of five values).
pub uninterp spec fn params_groups(params: vte::Params) -> Seq<Seq<u16>>;

/// Calls `vte::Params::iter` and copies each parameter out. The contract
/// claims that the result lists `params_groups(params)` and that every
/// parameter holds at least one value: in `vte` a parameter is a slice of
/// the stored values whose length is set to at least 1 when it is pushed.
#[verifier::external_body]
pub(crate) fn param_groups(params: &vte::Params) -> (groups: Vec<Vec<u16>>)
    ensures
        groups@.len() == params_groups(*params).len(),
        forall|i: int|
            0 <= i < groups@.len() ==> #[trigger] groups@[i]@ == params_groups(*params)[i]
                && groups@[i]@.len() >= 1,
{
    params.iter().map(|p| p.to_vec()).collect()
}

/// The first value of each parameter.
pub open spec fn first_values(groups: Seq<Seq<u16>>) -> Seq<u16> {
    Seq::new(groups.len(), |i: int| groups[i][0])
}

/// The first value of each parameter of a list whose parameters are all non-empty.
pub fn first_of_each(groups: &Vec<Vec<u16>>) -> (firsts: Vec<u16>)
    requires
        forall|i: int| 0 <= i < groups@.len() ==> #[trigger] groups@[i]@.len() >= 1,
    ensures
        firsts@ == first_values(groups@.map_values(|g: Vec<u16>| g@)),
{
    let mut firsts: Vec<u16> = Vec::new();
    let mut i: usize = 0;
    while i < groups.len()
        invariant
            i <= groups@.len(),
            forall|k: int| 0 <= k < groups@.len() ==> #[trigger] groups@[k]@.len() >= 1,
            firsts@ =~= first_values(groups@.map_values(|g: Vec<u16>| g@)).subrange(0, i as int),
        decreases groups@.len() - i,
    {
        firsts.push(groups[i][0]);
        i += 1;
    }
    assert(first_values(groups@.map_values(|g: Vec<u16>| g@)).subrange(0, i as int)
        =~= first_values(groups@.map_values(|g: Vec<u16>| g@)));
    firsts
}

/// The first value of each parameter of `params`: what the grid's CSI
/// actions read.
pub fn param_values(params: &vte::Params) -> (values: Vec<u16>)
    ensures
        values@ == first_values(params_groups(*params)),
{
    let groups = param_groups(params);
    let values = first_of_each(&groups);
    assert(groups@.map_values(|g: Vec<u16>| g@) =~= params_groups(*params));
    values
}

} // verus!
