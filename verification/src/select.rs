//! Selection: resolving an item request against a repository, given
//! the optional numeric argument the router parsed upstream.

use vstd::prelude::*;

use crate::repo::ContentRepository;
use crate::repo::owned_by;
use crate::repo::spec_get;

verus! {

/// How a custom-pool request came out. Looking up a given id and
/// drawing at random fail differently, for clearer user messaging.
pub enum Selection<'a, T> {
    /// The selected item.
    Chosen(&'a T),
    /// The requested id is absent or owned by another community.
    NotFoundById,
    /// The community has no custom entries to draw from.
    NoCustomContent,
}

/// Resolves a custom-pool request: a given id is looked up, and an
/// absent argument draws from the community's own entries, the choice
/// driven by the given entropy.
pub fn select_custom<'a, T>(
    repo: &'a ContentRepository<T>,
    g: u64,
    arg: Option<u64>,
    entropy: u64,
) -> (r: Selection<'a, T>)
    ensures
        arg matches Some(id) ==> {
            &&& !(r is NoCustomContent)
            &&& r is Chosen <==> spec_get(repo@.custom, g, id) is Some
            &&& r matches Selection::Chosen(b) ==> spec_get(repo@.custom, g, id) == Some(*b)
        },
        arg is None ==> {
            &&& !(r is NotFoundById)
            &&& r is Chosen <==> owned_by(repo@.custom, g).len() > 0
            &&& r matches Selection::Chosen(b) ==> *b == owned_by(repo@.custom, g)[entropy as int
                % owned_by(repo@.custom, g).len() as int].body
        },
{
    match arg {
        Some(id) => match repo.get_custom_by_id(g, id) {
            Some(b) => Selection::Chosen(b),
            None => Selection::NotFoundById,
        },
        None => match repo.random_custom(g, entropy) {
            Some(b) => Selection::Chosen(b),
            None => Selection::NoCustomContent,
        },
    }
}

} // verus!
