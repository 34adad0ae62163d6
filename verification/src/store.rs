//! The collection store: an ordered sequence of records behind one type,
//! reached only through the five operations. Ids grow strictly along the
//! sequence, so every id occurs at most once; that invariant is attached to
//! the type itself and holds whenever a `Team` is observed.

use vstd::prelude::*;
use crate::models::{Pokemon, CreatePokemon, UpdatePokemon, PokemonView, apply_update};

verus! {

/// The views of the records in a sequence, in the same order.
pub open spec fn views_of(s: Seq<Pokemon>) -> Seq<PokemonView> {
    s.map_values(|p: Pokemon| p@)
}

/// The ids of a sequence of records, in order.
pub open spec fn ids_of(s: Seq<PokemonView>) -> Seq<u32> {
    s.map_values(|p: PokemonView| p.id)
}

/// Ids grow strictly along the sequence; in particular each id occurs at most
/// once.
pub open spec fn ids_increasing(s: Seq<PokemonView>) -> bool {
    forall|i: int, j: int| 0 <= i < j < s.len() ==> s[i].id < s[j].id
}

/// Some record in the sequence has this id.
pub open spec fn contains_id(s: Seq<PokemonView>, id: u32) -> bool {
    exists|i: int| 0 <= i < s.len() && s[i].id == id
}

/// Index `i` holds the first record of the sequence with this id.
pub open spec fn first_match_at(s: Seq<PokemonView>, id: u32, i: int) -> bool {
    &&& 0 <= i < s.len()
    &&& s[i].id == id
    &&& forall|j: int| 0 <= j < i ==> s[j].id != id
}

/// The sequence with every record of this id removed, order of the rest kept.
pub open spec fn remove_id(s: Seq<PokemonView>, id: u32) -> Seq<PokemonView> {
    s.filter(|p: PokemonView| p.id != id)
}

/// The id the store hands to the next created record: one more than the id of
/// the last record in insertion order, or 1 on an empty collection. This is
/// deliberately not a maximum over all ids ever issued.
pub open spec fn next_id(s: Seq<PokemonView>) -> int {
    if s.len() == 0 {
        1
    } else {
        s.last().id + 1
    }
}

/// Filtering an id out of a sequence extended by one record: the filter
/// distributes over the extension, and the new record survives exactly when
/// its id differs.
pub(crate) proof fn lemma_remove_id_push(s: Seq<PokemonView>, x: PokemonView, id: u32)
    ensures
        remove_id(s.push(x), id) == (if x.id != id {
            remove_id(s, id).push(x)
        } else {
            remove_id(s, id)
        }),
{
    reveal(Seq::filter);
    assert(s.push(x).drop_last() =~= s);
    assert(s.push(x).last() == x);
}

/// Removing an id that no record of the sequence has changes nothing.
pub(crate) proof fn lemma_remove_id_missing(s: Seq<PokemonView>, id: u32)
    requires
        !contains_id(s, id),
    ensures
        remove_id(s, id) == s,
    decreases s.len(),
{
    reveal(Seq::filter);
    if s.len() > 0 {
        let t = s.drop_last();
        let x = s.last();
        assert(s =~= t.push(x));
        assert(!contains_id(t, id)) by {
            if contains_id(t, id) {
                let j = choose|j: int| 0 <= j < t.len() && t[j].id == id;
                assert(s[j].id == id);
            }
        }
        assert(x.id != id) by {
            assert(s[s.len() - 1] == x);
        }
        lemma_remove_id_missing(t, id);
        lemma_remove_id_push(t, x, id);
    }
}

/// When ids grow along the sequence, removing the id found at index `i`
/// removes exactly that one record.
pub(crate) proof fn lemma_remove_id_unique_match(s: Seq<PokemonView>, id: u32, i: int)
    requires
        ids_increasing(s),
        0 <= i < s.len(),
        s[i].id == id,
    ensures
        remove_id(s, id) == s.remove(i),
    decreases s.len(),
{
    reveal(Seq::filter);
    let t = s.drop_last();
    let x = s.last();
    assert(s =~= t.push(x));
    lemma_remove_id_push(t, x, id);
    if i == s.len() - 1 {
        assert(!contains_id(t, id)) by {
            if contains_id(t, id) {
                let j = choose|j: int| 0 <= j < t.len() && t[j].id == id;
                assert(s[j].id < s[i].id);
            }
        }
        lemma_remove_id_missing(t, id);
        assert(s.remove(i) =~= t);
    } else {
        assert(x.id != id) by {
            assert(s[i].id < s[s.len() - 1].id);
        }
        assert(ids_increasing(t)) by {
            assert(forall|a: int, b: int| 0 <= a < b < t.len() ==> t[a] == s[a] && t[b] == s[b]);
        }
        lemma_remove_id_unique_match(t, id, i);
        assert(s.remove(i) =~= t.remove(i).push(x));
    }
}

/// The ordered collection of records, reached only through the operations
/// below.
pub struct Team {
    records: Vec<Pokemon>,
}

impl View for Team {
    type V = Seq<PokemonView>;

    closed spec fn view(&self) -> Seq<PokemonView> {
        views_of(self.records@)
    }
}

impl Team {
    #[verifier::type_invariant]
    spec fn inv(self) -> bool {
        ids_increasing(self@)
    }

    /// An empty collection.
    pub fn new() -> (t: Team)
        ensures
            t@ == Seq::<PokemonView>::empty(),
    {
        let t = Team { records: Vec::new() };
        proof {
            assert(t@ =~= Seq::<PokemonView>::empty());
        }
        t
    }

    /// How many records the collection holds.
    pub fn len(&self) -> (n: usize)
        ensures
            n == self@.len(),
    {
        self.records.len()
    }

    /// Whether a record can still be created: the next id must fit in `u32`.
    /// Only a collection whose last record carries the largest possible id
    /// refuses.
    pub fn can_create(&self) -> (b: bool)
        ensures
            b == (next_id(self@) <= u32::MAX),
    {
        let n = self.records.len();
        if n == 0 {
            true
        } else {
            self.records[n - 1].id < u32::MAX
        }
    }

    /// Create: assign the next id, append the new record, and return a copy
    /// of it.
    pub fn create(&mut self, req: CreatePokemon) -> (p: Pokemon)
        requires
            next_id(old(self)@) <= u32::MAX,
        ensures
            p@.id == next_id(old(self)@),
            p@.name == req@.name,
            p@.poke_type == req@.poke_type,
            p@.level == req@.level,
            final(self)@ == old(self)@.push(p@),
            ids_increasing(final(self)@),
    {
        proof {
            use_type_invariant(&*self);
        }
        let mut recs: Vec<Pokemon> = Vec::new();
        std::mem::swap(&mut recs, &mut self.records);
        let ghost s0 = views_of(recs@);
        let n = recs.len();
        let new_id: u32 = if n == 0 {
            1
        } else {
            recs[n - 1].id + 1
        };
        let p = Pokemon { id: new_id, name: req.name, poke_type: req.poke_type, level: req.level };
        recs.push(p.clone());
        proof {
            assert(views_of(recs@) =~= s0.push(p@));
            assert forall|i: int, j: int| 0 <= i < j < views_of(recs@).len() implies views_of(
                recs@,
            )[i].id < views_of(recs@)[j].id by {
                if j < s0.len() {
                } else {
                    if i < s0.len() - 1 {
                        assert(s0[i].id < s0[s0.len() - 1].id);
                    }
                }
            }
        }
        self.records = recs;
        proof {
            use_type_invariant(&*self);
        }
        p
    }

    /// ListAll: a snapshot copy of every record, in insertion order.
    pub fn list_all(&self) -> (r: Vec<Pokemon>)
        ensures
            views_of(r@) == self@,
    {
        let mut out: Vec<Pokemon> = Vec::new();
        let n = self.records.len();
        let mut i: usize = 0;
        while i < n
            invariant
                n == self.records.len(),
                i <= n,
                out@.len() == i,
                forall|k: int| 0 <= k < i ==> out@[k] == self.records@[k],
            decreases n - i,
        {
            out.push(self.records[i].clone());
            i = i + 1;
        }
        proof {
            assert(views_of(out@) =~= self@);
        }
        out
    }

    /// GetById: a copy of the first record with this id, or `None` when no
    /// record has it.
    pub fn get_by_id(&self, id: u32) -> (r: Option<Pokemon>)
        ensures
            r is Some <==> contains_id(self@, id),
            r matches Some(p) ==> exists|i: int| first_match_at(self@, id, i) && p@ == self@[i],
    {
        let n = self.records.len();
        let mut i: usize = 0;
        while i < n
            invariant
                n == self.records.len(),
                i <= n,
                forall|j: int| 0 <= j < i ==> self@[j].id != id,
            decreases n - i,
        {
            if self.records[i].id == id {
                let p = self.records[i].clone();
                proof {
                    assert(first_match_at(self@, id, i as int));
                    assert(p@ == self@[i as int]);
                }
                return Some(p);
            }
            i = i + 1;
        }
        None
    }

    /// The index of the first record with this id, if any record has it.
    fn find_index(&self, id: u32) -> (r: Option<usize>)
        ensures
            r is Some <==> contains_id(self@, id),
            r matches Some(i) ==> first_match_at(self@, id, i as int),
    {
        let n = self.records.len();
        let mut i: usize = 0;
        while i < n
            invariant
                n == self.records.len(),
                i <= n,
                forall|j: int| 0 <= j < i ==> self@[j].id != id,
            decreases n - i,
        {
            if self.records[i].id == id {
                proof {
                    assert(first_match_at(self@, id, i as int));
                }
                return Some(i);
            }
            i = i + 1;
        }
        None
    }

    /// Update: overwrite the present fields of the first record with this id,
    /// keep its absent fields and its id, and return a copy of the record
    /// after the change. `None`, and no change at all, when no record has the
    /// id.
    pub fn update(&mut self, id: u32, req: UpdatePokemon) -> (r: Option<Pokemon>)
        ensures
            r is Some <==> contains_id(old(self)@, id),
            r is None ==> final(self)@ == old(self)@,
            r matches Some(p) ==> exists|i: int|
                first_match_at(old(self)@, id, i) && p@ == apply_update(old(self)@[i], req@)
                    && final(self)@ == old(self)@.update(i, p@),
            ids_increasing(final(self)@),
    {
        proof {
            use_type_invariant(&*self);
        }
        let ghost rv = req@;
        match self.find_index(id) {
            None => None,
            Some(i) => {
                let mut recs: Vec<Pokemon> = Vec::new();
                std::mem::swap(&mut recs, &mut self.records);
                let ghost s0 = views_of(recs@);
                let name: String = match req.name {
                    Some(nm) => nm,
                    None => recs[i].name.clone(),
                };
                let poke_type: String = match req.poke_type {
                    Some(t) => t,
                    None => recs[i].poke_type.clone(),
                };
                let level: u32 = match req.level {
                    Some(l) => l,
                    None => recs[i].level,
                };
                let upd = Pokemon { id: recs[i].id, name, poke_type, level };
                let copy = upd.clone();
                recs[i] = upd;
                proof {
                    assert(copy@ == apply_update(s0[i as int], rv));
                    assert(views_of(recs@) =~= s0.update(i as int, copy@));
                    assert forall|a: int, b: int|
                        0 <= a < b < views_of(recs@).len() implies views_of(recs@)[a].id < views_of(
                        recs@,
                    )[b].id by {
                        assert(s0[a].id < s0[b].id);
                    }
                }
                self.records = recs;
                Some(copy)
            },
        }
    }

    /// Delete: remove every record with this id (at most one exists),
    /// preserving the order of the rest. Success is whether the collection
    /// shrank; on failure nothing changed at all, on success the length fell
    /// by exactly one. Afterwards no record has the id.
    pub fn delete(&mut self, id: u32) -> (deleted: bool)
        ensures
            final(self)@ == remove_id(old(self)@, id),
            deleted <==> contains_id(old(self)@, id),
            !deleted ==> final(self)@ == old(self)@,
            deleted ==> final(self)@.len() == old(self)@.len() - 1,
            !contains_id(final(self)@, id),
            ids_increasing(final(self)@),
    {
        proof {
            use_type_invariant(&*self);
        }
        match self.find_index(id) {
            None => {
                proof {
                    lemma_remove_id_missing(self@, id);
                }
                false
            },
            Some(i) => {
                let mut recs: Vec<Pokemon> = Vec::new();
                std::mem::swap(&mut recs, &mut self.records);
                let ghost s0 = views_of(recs@);
                let _removed = recs.remove(i);
                proof {
                    assert(views_of(recs@) =~= s0.remove(i as int));
                    lemma_remove_id_unique_match(s0, id, i as int);
                    assert forall|a: int, b: int|
                        0 <= a < b < s0.remove(i as int).len() implies s0.remove(
                        i as int,
                    )[a].id < s0.remove(i as int)[b].id by {
                        let aa: int = if a < i as int {
                            a
                        } else {
                            a + 1
                        };
                        let bb: int = if b < i as int {
                            b
                        } else {
                            b + 1
                        };
                        assert(s0.remove(i as int)[a] == s0[aa]);
                        assert(s0.remove(i as int)[b] == s0[bb]);
                    }
                    assert forall|k: int|
                        0 <= k < s0.remove(i as int).len() implies s0.remove(
                        i as int,
                    )[k].id != id by {
                        let kk: int = if k < i as int {
                            k
                        } else {
                            k + 1
                        };
                        assert(s0.remove(i as int)[k] == s0[kk]);
                        if kk > i as int {
                            assert(s0[i as int].id < s0[kk].id);
                        }
                    }
                }
                self.records = recs;
                true
            },
        }
    }
}

} // verus!
