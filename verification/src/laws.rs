//! Properties that relate the store's operations to one another, stated over
//! the mathematical model that their contracts use and proved once for all
//! inputs.

use vstd::prelude::*;
use crate::models::{PokemonView, UpdateView, apply_update};
use crate::store::{contains_id, first_match_at, ids_of, remove_id};

verus! {

/// An update never reorders the collection: the ids after overwriting the
/// record at `i` with any update are, in order, the ids before. A listing
/// after any run of updates therefore still shows creation order.
pub proof fn lemma_update_keeps_order(s: Seq<PokemonView>, i: int, u: UpdateView)
    requires
        0 <= i < s.len(),
    ensures
        ids_of(s.update(i, apply_update(s[i], u))) == ids_of(s),
{
    assert(ids_of(s.update(i, apply_update(s[i], u))) =~= ids_of(s));
}

/// A lookup after an update sees the latest version: the index that held the
/// first record with the id still holds the first record with the id, and
/// what stands there is exactly the updated record.
pub proof fn lemma_get_after_update(s: Seq<PokemonView>, id: u32, i: int, u: UpdateView)
    requires
        first_match_at(s, id, i),
    ensures
        first_match_at(s.update(i, apply_update(s[i], u)), id, i),
        s.update(i, apply_update(s[i], u))[i] == apply_update(s[i], u),
{
}

/// After an id is removed, no record of the result has it: a lookup of a
/// deleted id reports not-found.
pub proof fn lemma_get_after_delete(s: Seq<PokemonView>, id: u32)
    ensures
        !contains_id(remove_id(s, id), id),
    decreases s.len(),
{
    reveal(Seq::filter);
    if s.len() > 0 {
        let t = s.drop_last();
        let x = s.last();
        assert(s =~= t.push(x));
        crate::store::lemma_remove_id_push(t, x, id);
        lemma_get_after_delete(t, id);
    }
}

/// An update with every field absent is a no-op: it maps the record to
/// itself and hence the collection to itself.
pub proof fn lemma_update_all_absent_noop(s: Seq<PokemonView>, i: int, u: UpdateView)
    requires
        0 <= i < s.len(),
        u.name is None,
        u.poke_type is None,
        u.level is None,
    ensures
        apply_update(s[i], u) == s[i],
        s.update(i, apply_update(s[i], u)) == s,
{
    assert(apply_update(s[i], u) =~= s[i]);
    assert(s.update(i, apply_update(s[i], u)) =~= s);
}

/// An update with only the level present changes only the level: name, type
/// and id keep their prior values.
pub proof fn lemma_update_level_only(p: PokemonView, u: UpdateView)
    requires
        u.name is None,
        u.poke_type is None,
        u.level is Some,
    ensures
        apply_update(p, u).level == u.level->0,
        apply_update(p, u).name == p.name,
        apply_update(p, u).poke_type == p.poke_type,
        apply_update(p, u).id == p.id,
{
}

} // verus!
