//! Protection from a quality (CR 702.16): damage, blocks and targets that it keeps off.

use crate::ability::{Keyword, ProtectionTarget};
use crate::ids::ObjectId;
use crate::list::List;
use crate::object::GameObject;
use crate::state::{Game, GameState};
use vstd::prelude::*;

verus! {

/// Whether protection from something is protection from an object (CR 702.16a).
pub open spec fn protects_from(protection: ProtectionTarget, source: GameObject) -> bool {
    match protection {
        ProtectionTarget::Color(color) => source.colors@.contains(color),
        ProtectionTarget::CardType(kind) => source.card_types.core_types@.contains(kind),
        ProtectionTarget::Everything => true,
    }
}

/// Whether one of some keywords is protection from an object.
pub open spec fn keywords_protect(keywords: List<Keyword>, source: GameObject) -> bool
    decreases keywords,
{
    match keywords.node {
        None => false,
        Some(n) => (match *n.item {
            Keyword::Protection(protection) => protects_from(protection, source),
            _ => false,
        }) || keywords_protect(n.rest, source),
    }
}

fn check_keywords_protect(keywords: &List<Keyword>, source: &GameObject) -> (r: bool)
    ensures
        r == keywords_protect(*keywords, *source),
    decreases keywords,
{
    match &keywords.node {
        None => false,
        Some(n) => (match &*n.item {
            Keyword::Protection(protection) => match protection {
                ProtectionTarget::Color(color) => source.colors.contains(color),
                ProtectionTarget::CardType(kind) => source.card_types.core_types.contains(kind),
                ProtectionTarget::Everything => true,
            },
            _ => false,
        }) || check_keywords_protect(&n.rest, source),
    }
}

/// Whether an object has protection from another. Nothing is known of the qualities of an object
/// that is gone.
pub open spec fn has_protection(g: Game, id: ObjectId, source: ObjectId) -> bool {
    match (g.object(id), g.object(source)) {
        (Some(o), Some(s)) => keywords_protect(o.keywords, s),
        _ => false,
    }
}

pub fn check_protection(state: &GameState, id: ObjectId, source: ObjectId) -> (r: bool)
    ensures
        r == has_protection(state@, id, source),
{
    match (state.objects.get(&id), state.objects.get(&source)) {
        (Some(o), Some(s)) => check_keywords_protect(&o.keywords, s),
        _ => false,
    }
}

} // verus!
