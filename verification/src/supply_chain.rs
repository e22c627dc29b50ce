//! Production-recipe graph: recipes by name, and for every resource the
//! recipes that produce it.
//!
//! Both tables are association lists over resource and recipe names, read
//! through first-match lookup; an insert places its entry in front, so a
//! re-used name shadows the older entry exactly as a map insert would.

use vstd::prelude::*;

verus! {

/// First-match lookup in an association list.
pub open spec fn lookup<T>(entries: Seq<(Seq<char>, T)>, key: Seq<char>) -> Option<T>
    decreases entries.len(),
{
    if entries.len() == 0 {
        None
    } else if entries.first().0 == key {
        Some(entries.first().1)
    } else {
        lookup(entries.drop_first(), key)
    }
}

/// Some entry of the association list carries the key.
pub open spec fn has_key<T>(entries: Seq<(Seq<char>, T)>, key: Seq<char>) -> bool {
    exists|i: int| 0 <= i < entries.len() && (#[trigger] entries[i]).0 == key
}

/// No two entries of the association list share a key.
pub open spec fn unique_keys<T>(entries: Seq<(Seq<char>, T)>) -> bool {
    forall|i: int, j: int|
        0 <= i < j < entries.len() ==> (#[trigger] entries[i]).0 != (#[trigger] entries[j]).0
}

/// Lookup finds the first entry carrying the key.
proof fn lemma_lookup_at_index<T>(entries: Seq<(Seq<char>, T)>, key: Seq<char>, i: int)
    requires
        0 <= i < entries.len(),
        entries[i].0 == key,
        forall|t: int| 0 <= t < i ==> (#[trigger] entries[t]).0 != key,
    ensures
        lookup(entries, key) == Some(entries[i].1),
    decreases i,
{
    if i > 0 {
        assert forall|t: int| 0 <= t < i - 1 implies (#[trigger] entries.drop_first()[t]).0
            != key by {
            assert(entries.drop_first()[t] == entries[t + 1]);
        }
        assert(entries.drop_first()[i - 1] == entries[i]);
        lemma_lookup_at_index(entries.drop_first(), key, i - 1);
    }
}

/// Lookup misses when no entry carries the key.
proof fn lemma_lookup_absent<T>(entries: Seq<(Seq<char>, T)>, key: Seq<char>)
    requires
        forall|t: int| 0 <= t < entries.len() ==> (#[trigger] entries[t]).0 != key,
    ensures
        lookup(entries, key) is None,
    decreases entries.len(),
{
    if entries.len() > 0 {
        assert forall|t: int|
            0 <= t < entries.len() - 1 implies (#[trigger] entries.drop_first()[t]).0 != key by {
            assert(entries.drop_first()[t] == entries[t + 1]);
        }
        lemma_lookup_absent(entries.drop_first(), key);
    }
}

/// One production recipe: ingredient and product quantities by resource
/// name, processing time, and energy cost.
#[derive(Debug, Clone, PartialEq, Eq)]
pub struct Recipe {
    pub inputs: Vec<(String, u32)>,
    pub outputs: Vec<(String, u32)>,
    pub process_time_seconds: u32,
    pub energy_cost_kw: u32,
}

impl Recipe {
    /// Each ingredient list names every resource at most once.
    pub open spec fn wf(&self) -> bool {
        &&& unique_keys(self.inputs.deep_view())
        &&& unique_keys(self.outputs.deep_view())
    }
}

/// The source list for `key` after recipe `name` is recorded as producing
/// it: the existing list with `name` appended, or a fresh one-element list.
pub open spec fn appended_sources(
    adj: Seq<(Seq<char>, Seq<Seq<char>>)>,
    key: Seq<char>,
    name: Seq<char>,
) -> Seq<Seq<char>> {
    match lookup(adj, key) {
        Some(v) => v.push(name),
        None => seq![name],
    }
}

/// Find the first entry whose key equals `key`, if any.
fn first_key_index<V>(entries: &Vec<(String, V)>, key: &String) -> (r: Option<usize>)
    ensures
        r matches Some(i) ==> i < entries@.len() && entries@[i as int].0@ == key@ && (forall|t: int|
            0 <= t < i ==> (#[trigger] entries@[t]).0@ != key@),
        r is None ==> forall|t: int|
            0 <= t < entries@.len() ==> (#[trigger] entries@[t]).0@ != key@,
{
    let mut i: usize = 0;
    while i < entries.len()
        invariant
            i <= entries@.len(),
            forall|t: int| 0 <= t < i ==> (#[trigger] entries@[t]).0@ != key@,
        decreases entries@.len() - i,
    {
        if entries[i].0 == *key {
            return Some(i);
        }
        i = i + 1;
    }
    None
}

/// The graph: recipes by name, and for every resource the names of the
/// recipes that produce it, both in front-insert association lists.
pub struct SupplyChainGraph {
    recipes: Vec<(String, Recipe)>,
    adjacency_list: Vec<(String, Vec<String>)>,
}

impl SupplyChainGraph {
    /// Recipes by name.
    pub closed spec fn recipes_model(&self) -> Seq<(Seq<char>, Recipe)> {
        self.recipes@.map_values(|p: (String, Recipe)| (p.0@, p.1))
    }

    /// Producing-recipe names by resource name.
    pub closed spec fn adjacency_model(&self) -> Seq<(Seq<char>, Seq<Seq<char>>)> {
        self.adjacency_list@.map_values(|p: (String, Vec<String>)| (p.0@, p.1.deep_view()))
    }

    /// A fresh graph, seeded with the one fixed steel-refining recipe:
    /// 250 Iron Ore and 20 Fuel yield 100 Steel in 10 seconds at 480 kW.
    pub fn new() -> (r: SupplyChainGraph)
        ensures
            lookup(r.recipes_model(), "Refine Steel"@) matches Some(rec) && rec.inputs.deep_view()
                == seq![("Iron Ore"@, 250u32), ("Fuel"@, 20u32)] && rec.outputs.deep_view()
                == seq![("Steel"@, 100u32)] && rec.process_time_seconds == 10 && rec.energy_cost_kw
                == 480,
            forall|k: Seq<char>|
                k != "Refine Steel"@ ==> #[trigger] lookup(r.recipes_model(), k) is None,
            lookup(r.adjacency_model(), "Steel"@) == Some(seq!["Refine Steel"@]),
            forall|k: Seq<char>|
                k != "Steel"@ ==> #[trigger] lookup(r.adjacency_model(), k) is None,
    {
        let mut graph = SupplyChainGraph { recipes: Vec::new(), adjacency_list: Vec::new() };
        proof {
            assert(graph.recipes_model() =~= Seq::<(Seq<char>, Recipe)>::empty());
            assert(graph.adjacency_model() =~= Seq::<(Seq<char>, Seq<Seq<char>>)>::empty());
        }

        let mut inputs: Vec<(String, u32)> = Vec::new();
        inputs.push(("Iron Ore".to_owned(), 250));
        inputs.push(("Fuel".to_owned(), 20));

        let mut outputs: Vec<(String, u32)> = Vec::new();
        outputs.push(("Steel".to_owned(), 100));

        let recipe = Recipe { inputs, outputs, process_time_seconds: 10, energy_cost_kw: 480 };
        proof {
            reveal_strlit("Iron Ore");
            reveal_strlit("Fuel");
            assert(recipe.inputs.deep_view() =~= seq![("Iron Ore"@, 250u32), ("Fuel"@, 20u32)]);
            assert(recipe.outputs.deep_view() =~= seq![("Steel"@, 100u32)]);
            assert(unique_keys(recipe.inputs.deep_view())) by {
                assert(recipe.inputs.deep_view()[0].0 == "Iron Ore"@);
                assert(recipe.inputs.deep_view()[1].0 == "Fuel"@);
                assert("Iron Ore"@.len() == 8);
                assert("Fuel"@.len() == 4);
            }
            assert(unique_keys(recipe.outputs.deep_view()));
            assert(recipe.wf());
        }

        graph.add_recipe("Refine Steel", recipe);
        proof {
            assert(has_key(seq![("Steel"@, 100u32)], "Steel"@)) by {
                assert(seq![("Steel"@, 100u32)][0].0 == "Steel"@);
            }
            assert forall|k: Seq<char>| k != "Steel"@ implies !has_key(
                seq![("Steel"@, 100u32)],
                k,
            ) by {
                assert(forall|i: int|
                    0 <= i < 1 ==> (#[trigger] seq![("Steel"@, 100u32)][i]).0 == "Steel"@);
            }
        }
        graph
    }

    /// Record a recipe under a name: the name now resolves to this recipe
    /// (shadowing any older one), and the recipe's name is appended to the
    /// producing-recipe list of each of its output resources, in output
    /// order. Nothing else in either table changes.
    pub fn add_recipe(&mut self, name: &str, recipe: Recipe)
        requires
            recipe.wf(),
        ensures
            lookup(final(self).recipes_model(), name@) == Some(recipe),
            forall|k: Seq<char>|
                k != name@ ==> #[trigger] lookup(final(self).recipes_model(), k) == lookup(
                    old(self).recipes_model(),
                    k,
                ),
            forall|k: Seq<char>|
                has_key(recipe.outputs.deep_view(), k) ==> #[trigger] lookup(
                    final(self).adjacency_model(),
                    k,
                ) == Some(appended_sources(old(self).adjacency_model(), k, name@)),
            forall|k: Seq<char>|
                !has_key(recipe.outputs.deep_view(), k) ==> #[trigger] lookup(
                    final(self).adjacency_model(),
                    k,
                ) == lookup(old(self).adjacency_model(), k),
    {
        let name_owned: String = name.to_owned();
        let ghost old_adj = self.adjacency_model();
        let ghost old_recipes = self.recipes_model();
        let ghost outs = recipe.outputs.deep_view();

        let mut j: usize = 0;
        while j < recipe.outputs.len()
            invariant
                j <= outs.len(),
                outs == recipe.outputs.deep_view(),
                unique_keys(outs),
                name_owned@ == name@,
                self.recipes@ == old(self).recipes@,
                forall|k: Seq<char>|
                    has_key(outs.subrange(0, j as int), k) ==> #[trigger] lookup(
                        self.adjacency_model(),
                        k,
                    ) == Some(appended_sources(old_adj, k, name@)),
                forall|k: Seq<char>|
                    !has_key(outs.subrange(0, j as int), k) ==> #[trigger] lookup(
                        self.adjacency_model(),
                        k,
                    ) == lookup(old_adj, k),
            decreases outs.len() - j,
        {
            let ghost current = self.adjacency_model();
            let ghost k0 = outs[j as int].0;
            proof {
                // The key is new to this loop: uniqueness keeps it out of
                // the already-processed prefix.
                assert forall|t: int| 0 <= t < j implies (#[trigger] outs.subrange(0, j as int)[t]).0
                    != k0 by {
                    assert(outs.subrange(0, j as int)[t] == outs[t]);
                }
                assert(!has_key(outs.subrange(0, j as int), k0));
                assert(lookup(current, k0) == lookup(old_adj, k0));
            }
            let key: String = recipe.outputs[j].0.clone();
            let mut sources: Vec<String> = Vec::new();
            match first_key_index(&self.adjacency_list, &key) {
                Some(idx) => {
                    proof {
                        assert forall|t: int| 0 <= t < idx implies (#[trigger] current[t]).0
                            != k0 by {
                            assert(current[t].0 == self.adjacency_list@[t].0@);
                        }
                        lemma_lookup_at_index(current, k0, idx as int);
                    }
                    let existing = &self.adjacency_list[idx].1;
                    let mut t: usize = 0;
                    while t < existing.len()
                        invariant
                            t <= existing@.len(),
                            sources@.len() == t,
                            forall|u: int| 0 <= u < t ==> sources@[u] == existing@[u],
                        decreases existing@.len() - t,
                    {
                        sources.push(existing[t].clone());
                        t = t + 1;
                    }
                    proof {
                        assert(sources@ =~= existing@);
                    }
                },
                None => {
                    proof {
                        assert forall|t: int| 0 <= t < current.len() implies (#[trigger] current[t]).0
                            != k0 by {
                            assert(current[t].0 == self.adjacency_list@[t].0@);
                        }
                        lemma_lookup_absent(current, k0);
                    }
                },
            }
            sources.push(name_owned.clone());
            proof {
                assert(sources.deep_view() =~= appended_sources(old_adj, k0, name@));
            }
            self.adjacency_list.insert(0, (key, sources));
            proof {
                let updated = self.adjacency_model();
                assert(updated =~= seq![(k0, appended_sources(old_adj, k0, name@))] + current);
                assert(updated.drop_first() =~= current);
                assert(lookup(updated, k0) == Some(appended_sources(old_adj, k0, name@)));
                assert(outs.subrange(0, j + 1).drop_last() =~= outs.subrange(0, j as int));
                assert forall|k: Seq<char>| has_key(outs.subrange(0, j + 1), k) implies #[trigger] lookup(
                    updated,
                    k,
                ) == Some(appended_sources(old_adj, k, name@)) by {
                    if k == k0 {
                    } else {
                        assert(lookup(updated, k) == lookup(current, k));
                        let i = choose|i: int|
                            0 <= i < outs.subrange(0, j + 1).len() && (#[trigger] outs.subrange(
                                0,
                                j + 1,
                            )[i]).0 == k;
                        assert(outs.subrange(0, j as int)[i] == outs[i]);
                    }
                }
                assert forall|k: Seq<char>| !has_key(outs.subrange(0, j + 1), k) implies #[trigger] lookup(
                    updated,
                    k,
                ) == lookup(old_adj, k) by {
                    assert(outs.subrange(0, j + 1)[j as int] == outs[j as int]);
                    assert(k != k0);
                    assert(lookup(updated, k) == lookup(current, k));
                    assert forall|t: int| 0 <= t < j implies (#[trigger] outs.subrange(
                        0,
                        j as int,
                    )[t]) == outs.subrange(0, j + 1)[t] by {
                        assert(outs.subrange(0, j as int)[t] == outs[t]);
                        assert(outs.subrange(0, j + 1)[t] == outs[t]);
                    }
                    assert(!has_key(outs.subrange(0, j as int), k));
                }
            }
            j = j + 1;
        }
        let ghost adj_done = self.adjacency_model();
        proof {
            assert(outs.subrange(0, j as int) =~= outs);
            assert forall|k: Seq<char>| has_key(outs, k) implies #[trigger] lookup(adj_done, k)
                == Some(appended_sources(old_adj, k, name@)) by {
                assert(lookup(self.adjacency_model(), k) == Some(
                    appended_sources(old_adj, k, name@),
                ));
            }
            assert forall|k: Seq<char>| !has_key(outs, k) implies #[trigger] lookup(adj_done, k)
                == lookup(old_adj, k) by {
                assert(lookup(self.adjacency_model(), k) == lookup(old_adj, k));
            }
        }

        let ghost before_recipes = self.recipes_model();
        self.recipes.insert(0, (name_owned, recipe));
        proof {
            assert(self.adjacency_model() == adj_done);
            let updated = self.recipes_model();
            assert(updated =~= seq![(name@, recipe)] + before_recipes);
            assert(updated.drop_first() =~= before_recipes);
            assert(before_recipes =~= old_recipes);
            assert(lookup(updated, name@) == Some(recipe));
        }
    }

    /// The names of the recipes recorded as producing a resource, newest
    /// recording last, or `None` for a resource nothing produces.
    pub fn find_production_path(&self, target_resource: &str) -> (r: Option<Vec<String>>)
        ensures
            r matches Some(v) ==> lookup(self.adjacency_model(), target_resource@) == Some(
                v.deep_view(),
            ),
            r is None <==> lookup(self.adjacency_model(), target_resource@) is None,
    {
        let key: String = target_resource.to_owned();
        match first_key_index(&self.adjacency_list, &key) {
            Some(idx) => {
                proof {
                    assert forall|t: int|
                        0 <= t < idx implies (#[trigger] self.adjacency_model()[t]).0 != key@ by {
                        assert(self.adjacency_model()[t].0 == self.adjacency_list@[t].0@);
                    }
                    lemma_lookup_at_index(self.adjacency_model(), key@, idx as int);
                }
                let existing = &self.adjacency_list[idx].1;
                let mut sources: Vec<String> = Vec::new();
                let mut t: usize = 0;
                while t < existing.len()
                    invariant
                        t <= existing@.len(),
                        sources@.len() == t,
                        forall|u: int| 0 <= u < t ==> sources@[u] == existing@[u],
                    decreases existing@.len() - t,
                {
                    sources.push(existing[t].clone());
                    t = t + 1;
                }
                proof {
                    assert(sources.deep_view() =~= existing.deep_view());
                }
                Some(sources)
            },
            None => {
                proof {
                    assert forall|t: int|
                        0 <= t < self.adjacency_model().len() implies (#[trigger] self.adjacency_model()[t]).0
                        != key@ by {
                        assert(self.adjacency_model()[t].0 == self.adjacency_list@[t].0@);
                    }
                    lemma_lookup_absent(self.adjacency_model(), key@);
                }
                None
            },
        }
    }

    /// The recipe recorded under a name, or `None` for an unknown name.
    pub fn get_recipe(&self, recipe_name: &str) -> (r: Option<&Recipe>)
        ensures
            r matches Some(rec) ==> lookup(self.recipes_model(), recipe_name@) == Some(*rec),
            r is None <==> lookup(self.recipes_model(), recipe_name@) is None,
    {
        let key: String = recipe_name.to_owned();
        match first_key_index(&self.recipes, &key) {
            Some(idx) => {
                proof {
                    assert forall|t: int|
                        0 <= t < idx implies (#[trigger] self.recipes_model()[t]).0 != key@ by {
                        assert(self.recipes_model()[t].0 == self.recipes@[t].0@);
                    }
                    lemma_lookup_at_index(self.recipes_model(), key@, idx as int);
                }
                Some(&self.recipes[idx].1)
            },
            None => {
                proof {
                    assert forall|t: int|
                        0 <= t < self.recipes_model().len() implies (#[trigger] self.recipes_model()[t]).0
                        != key@ by {
                        assert(self.recipes_model()[t].0 == self.recipes@[t].0@);
                    }
                    lemma_lookup_absent(self.recipes_model(), key@);
                }
                None
            },
        }
    }
}

} // verus!
