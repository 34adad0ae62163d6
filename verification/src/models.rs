//! The record types: a stored `Pokemon`, the payload that creates one, and
//! the partial-update payload, together with their mathematical views.

use vstd::prelude::*;

verus! {

/// A stored record. `id` is assigned by the store; the other fields come from
/// the creating request.
#[derive(Debug)]
pub struct Pokemon {
    pub id: u32,
    pub name: String,
    pub poke_type: String,
    pub level: u32,
}

/// Payload of a create request: every field required, the id is chosen by the
/// store.
#[derive(Debug)]
pub struct CreatePokemon {
    pub name: String,
    pub poke_type: String,
    pub level: u32,
}

/// Payload of an update request: each field optional; a present field
/// overwrites the stored one, an absent field leaves it untouched.
#[derive(Debug)]
pub struct UpdatePokemon {
    pub name: Option<String>,
    pub poke_type: Option<String>,
    pub level: Option<u32>,
}

/// Mathematical view of a stored record.
#[verifier::ext_equal]
pub ghost struct PokemonView {
    pub id: u32,
    pub name: Seq<char>,
    pub poke_type: Seq<char>,
    pub level: u32,
}

/// Mathematical view of a create payload.
#[verifier::ext_equal]
pub ghost struct CreateView {
    pub name: Seq<char>,
    pub poke_type: Seq<char>,
    pub level: u32,
}

/// Mathematical view of an update payload.
#[verifier::ext_equal]
pub ghost struct UpdateView {
    pub name: Option<Seq<char>>,
    pub poke_type: Option<Seq<char>>,
    pub level: Option<u32>,
}

impl View for Pokemon {
    type V = PokemonView;

    open spec fn view(&self) -> PokemonView {
        PokemonView { id: self.id, name: self.name@, poke_type: self.poke_type@, level: self.level }
    }
}

impl View for CreatePokemon {
    type V = CreateView;

    open spec fn view(&self) -> CreateView {
        CreateView { name: self.name@, poke_type: self.poke_type@, level: self.level }
    }
}

impl View for UpdatePokemon {
    type V = UpdateView;

    open spec fn view(&self) -> UpdateView {
        UpdateView {
            name: match self.name {
                Some(ref n) => Some(n@),
                None => None,
            },
            poke_type: match self.poke_type {
                Some(ref t) => Some(t@),
                None => None,
            },
            level: self.level,
        }
    }
}

impl Clone for Pokemon {
    fn clone(&self) -> (r: Self)
        ensures
            r == *self,
    {
        Pokemon {
            id: self.id,
            name: self.name.clone(),
            poke_type: self.poke_type.clone(),
            level: self.level,
        }
    }
}

/// The record that an update payload turns a stored record into: present
/// fields overwrite, absent fields keep the stored value, the id never
/// changes.
pub open spec fn apply_update(p: PokemonView, u: UpdateView) -> PokemonView {
    PokemonView {
        id: p.id,
        name: match u.name {
            Some(n) => n,
            None => p.name,
        },
        poke_type: match u.poke_type {
            Some(t) => t,
            None => p.poke_type,
        },
        level: match u.level {
            Some(l) => l,
            None => p.level,
        },
    }
}

} // verus!
