//! The tokenizers that are loaded.
//!
//! A tokenizer is known here by its name. Loading one, and encoding with it,
//! is the caller's business: the registry says which tokenizers the models
//! ask for and keeps the names of those that could be loaded.

use crate::config::{
    lemma_every_kind_is_listed, model_kinds, AiRouterModel, AiRouterModelType, AiRouterModels,
};
use crate::names::Named;
use crate::text::str_eq;
use vstd::prelude::*;
use vstd::string::*;

verus! {

/// The names of the tokenizers that are loaded, each once.
#[derive(Debug)]
pub struct Tokenizers(Vec<String>);

/// Whether `model` asks for the tokenizer called `name`.
pub open spec fn asks_for(model: AiRouterModel, name: Seq<char>) -> bool {
    model.hf_model_name matches Some(n) && n@ == name
}

/// Whether a model of `models` asks for the tokenizer called `name`.
pub open spec fn asked_for_among(models: Seq<AiRouterModel>, name: Seq<char>) -> bool {
    exists|at: int| 0 <= at < models.len() && asks_for(#[trigger] models[at], name)
}

/// Whether a model of the kind asks for the tokenizer called `name`.
pub open spec fn asked_for_in(models: Option<Named<AiRouterModel>>, name: Seq<char>) -> bool {
    models matches Some(models) && asked_for_among(models.values(), name)
}

/// Whether a model of any kind asks for the tokenizer called `name`.
pub open spec fn asked_for(models: AiRouterModels, name: Seq<char>) -> bool {
    exists|kind: AiRouterModelType| asked_for_in(#[trigger] models.of_kind(kind), name)
}

/// The views of a vector of strings, in order.
pub open spec fn name_views(names: Seq<String>) -> Seq<Seq<char>> {
    names.map_values(|n: String| n@)
}

/// Whether `name` is one of `names`.
fn is_listed(names: &Vec<String>, name: &str) -> (r: bool)
    ensures
        r == name_views(names@).contains(name@),
{
    let mut i: usize = 0;
    while i < names.len()
        invariant
            i <= names@.len(),
            forall|k: int| 0 <= k < i ==> (#[trigger] name_views(names@)[k]) != name@,
        decreases names@.len() - i,
    {
        if str_eq(names[i].as_str(), name) {
            assert(name_views(names@)[i as int] == name@);
            return true;
        }
        i += 1;
    }
    false
}

/// Adds to `list` the names that the models of one kind ask for and that
/// `keep` admits, each once.
fn add_asked_for(list: &mut Vec<String>, models: &Named<AiRouterModel>, keep: Option<&Vec<String>>)
    requires
        name_views(old(list)@).no_duplicates(),
    ensures
        name_views(final(list)@).no_duplicates(),
        forall|name: Seq<char>|
            name_views(final(list)@).contains(name) <==> name_views(old(list)@).contains(name) || (
            asked_for_among(models.values(), name) && (keep matches Some(kept) ==> name_views(
                kept@,
            ).contains(name))),
{
    let mut i: usize = 0;
    while i < models.len()
        invariant
            i <= models.values().len(),
            name_views(list@).no_duplicates(),
            forall|name: Seq<char>|
                name_views(list@).contains(name) <==> name_views(old(list)@).contains(name) || (
                asked_for_among(models.values().take(i as int), name) && (keep matches Some(kept)
                    ==> name_views(kept@).contains(name))),
        decreases models.values().len() - i,
    {
        let ghost before = list@;
        let ghost seen = models.values().take(i as int);
        let ghost next = models.values().take(i + 1);
        proof {
            assert(next.drop_last() =~= seen);
            assert forall|name: Seq<char>|
                asked_for_among(next, name) <==> asked_for_among(seen, name) || asks_for(
                    models.values()[i as int],
                    name,
                ) by {
                if asked_for_among(seen, name) {
                    let at = choose|at: int|
                        0 <= at < seen.len() && asks_for(#[trigger] seen[at], name);
                    assert(next[at] == seen[at]);
                }
                if asks_for(models.values()[i as int], name) {
                    assert(next[i as int] == models.values()[i as int]);
                }
                if asked_for_among(next, name) {
                    let at = choose|at: int|
                        0 <= at < next.len() && asks_for(#[trigger] next[at], name);
                    if at < i {
                        assert(seen[at] == next[at]);
                    }
                }
            }
        }
        if let Some(name) = &models.value_at(i).hf_model_name {
            let admitted = match keep {
                Some(kept) => is_listed(kept, name.as_str()),
                None => true,
            };
            if admitted && !is_listed(list, name.as_str()) {
                list.push(name.clone());
                proof {
                    assert(name_views(list@) =~= name_views(before).push(name@));
                    assert forall|other: Seq<char>|
                        name_views(list@).contains(other) <==> name_views(before).contains(other)
                            || other == name@ by {
                        if name_views(before).contains(other) {
                            let k = choose|k: int|
                                0 <= k < before.len() && name_views(before)[k] == other;
                            assert(name_views(list@)[k] == other);
                        }
                        if other == name@ {
                            assert(name_views(list@)[before.len() as int] == other);
                        }
                    }
                }
            }
        }
        i += 1;
    }
    assert(models.values().take(i as int) =~= models.values());
}

/// The names that the models of all kinds ask for and that `keep` admits,
/// each once.
fn collect_asked_for(models: &AiRouterModels, keep: Option<&Vec<String>>) -> (r: Vec<String>)
    ensures
        name_views(r@).no_duplicates(),
        forall|name: Seq<char>|
            name_views(r@).contains(name) <==> asked_for(*models, name) && (keep matches Some(
                kept,
            ) ==> name_views(kept@).contains(name)),
{
    let mut list: Vec<String> = Vec::new();
    let kinds = model_kinds();
    let mut i: usize = 0;
    assert(name_views(list@) =~= Seq::<Seq<char>>::empty());
    while i < kinds.len()
        invariant
            i <= kinds@.len(),
            kinds@ == seq![
                AiRouterModelType::AudioSpeech,
                AiRouterModelType::AudioTranscriptions,
                AiRouterModelType::ChatCompletions,
                AiRouterModelType::Embeddings,
            ],
            name_views(list@).no_duplicates(),
            forall|name: Seq<char>|
                name_views(list@).contains(name) <==> (exists|k: int|
                    0 <= k < i && asked_for_in(#[trigger] models.of_kind(kinds@[k]), name)) && (
                keep matches Some(kept) ==> name_views(kept@).contains(name)),
        decreases kinds@.len() - i,
    {
        let ghost before = list@;
        if let Some(of_kind) = models.get(&kinds[i]) {
            add_asked_for(&mut list, of_kind, keep);
        }
        proof {
            assert forall|name: Seq<char>|
                name_views(list@).contains(name) <==> (exists|k: int|
                    0 <= k < i + 1 && asked_for_in(#[trigger] models.of_kind(kinds@[k]), name)) && (
                keep matches Some(kept) ==> name_views(kept@).contains(name)) by {
                let here = asked_for_in(models.of_kind(kinds@[i as int]), name);
                if exists|k: int|
                    0 <= k < i + 1 && asked_for_in(#[trigger] models.of_kind(kinds@[k]), name) {
                    let k = choose|k: int|
                        0 <= k < i + 1 && asked_for_in(#[trigger] models.of_kind(kinds@[k]), name);
                    if k < i {
                        assert(0 <= k < i && asked_for_in(models.of_kind(kinds@[k]), name));
                    }
                }
                if exists|k: int|
                    0 <= k < i && asked_for_in(#[trigger] models.of_kind(kinds@[k]), name) {
                    let k = choose|k: int|
                        0 <= k < i && asked_for_in(#[trigger] models.of_kind(kinds@[k]), name);
                    assert(0 <= k < i + 1 && asked_for_in(models.of_kind(kinds@[k]), name));
                }
                if here {
                    assert(0 <= i < i + 1 && asked_for_in(models.of_kind(kinds@[i as int]), name));
                }
            }
        }
        i += 1;
    }
    proof {
        assert forall|name: Seq<char>|
            asked_for(*models, name) <==> (exists|k: int|
                0 <= k < 4 && asked_for_in(#[trigger] models.of_kind(kinds@[k]), name)) by {
            if asked_for(*models, name) {
                let kind = choose|kind: AiRouterModelType|
                    asked_for_in(#[trigger] models.of_kind(kind), name);
                let k = lemma_every_kind_is_listed(kind);
                assert(asked_for_in(models.of_kind(kinds@[k]), name));
            }
        }
    }
    list
}

impl Tokenizers {
    /// The names of the tokenizers that are loaded, in order.
    pub closed spec fn names(self) -> Seq<Seq<char>> {
        name_views(self.0@)
    }

    /// Whether a tokenizer of that name is loaded.
    pub open spec fn holds(self, name: Seq<char>) -> bool {
        self.names().contains(name)
    }

    /// The names of the tokenizers that the models ask for, each once.
    pub fn requested(models: &AiRouterModels) -> (r: Vec<String>)
        ensures
            name_views(r@).no_duplicates(),
            forall|name: Seq<char>| name_views(r@).contains(name) <==> asked_for(*models, name),
    {
        collect_asked_for(models, None)
    }

    /// The registry for `models`, of which the tokenizers named in `loaded`
    /// could be loaded: it holds the tokenizers that a model asks for and
    /// that are loaded, each once.
    pub fn new(models: &AiRouterModels, loaded: &Vec<String>) -> (r: Self)
        ensures
            r.names().no_duplicates(),
            forall|name: Seq<char>|
                r.holds(name) <==> asked_for(*models, name) && name_views(loaded@).contains(name),
    {
        Tokenizers(collect_asked_for(models, Some(loaded)))
    }

    /// The tokenizer called `name`, where it is loaded.
    pub fn get(tokenizers: &Self, name: &str) -> (r: Option<String>)
        ensures
            r is Some <==> tokenizers.holds(name@),
            r is Some ==> r->0@ == name@,
    {
        if is_listed(&tokenizers.0, name) {
            Some(name.to_owned())
        } else {
            None
        }
    }
}

} // verus!
