use stark_core::supply_chain::{Recipe, SupplyChainGraph};

#[test]
fn fresh_graph_holds_the_steel_recipe() {
    let graph = SupplyChainGraph::new();
    let recipe = graph.get_recipe("Refine Steel").unwrap();
    assert_eq!(
        recipe.inputs,
        vec![("Iron Ore".to_string(), 250), ("Fuel".to_string(), 20)]
    );
    assert_eq!(recipe.outputs, vec![("Steel".to_string(), 100)]);
    assert_eq!(recipe.process_time_seconds, 10);
    assert_eq!(recipe.energy_cost_kw, 480);
    assert_eq!(
        graph.find_production_path("Steel"),
        Some(vec!["Refine Steel".to_string()])
    );
}

#[test]
fn unknown_names_resolve_to_nothing() {
    let graph = SupplyChainGraph::new();
    assert_eq!(graph.find_production_path("Unobtainium"), None);
    assert!(graph.get_recipe("Refine Unobtainium").is_none());
}

fn fuel_recipe() -> Recipe {
    Recipe {
        inputs: vec![("Water Ice".to_string(), 80)],
        outputs: vec![("Fuel".to_string(), 50)],
        process_time_seconds: 4,
        energy_cost_kw: 120,
    }
}

#[test]
fn added_recipes_become_findable_by_output() {
    let mut graph = SupplyChainGraph::new();
    graph.add_recipe("Crack Ice", fuel_recipe());
    assert_eq!(
        graph.find_production_path("Fuel"),
        Some(vec!["Crack Ice".to_string()])
    );
    // The steel entry is untouched.
    assert_eq!(
        graph.find_production_path("Steel"),
        Some(vec!["Refine Steel".to_string()])
    );
}

#[test]
fn a_second_producer_is_appended_in_recording_order() {
    let mut graph = SupplyChainGraph::new();
    let rival = Recipe {
        inputs: vec![("Scrap".to_string(), 500)],
        outputs: vec![("Steel".to_string(), 60)],
        process_time_seconds: 30,
        energy_cost_kw: 900,
    };
    graph.add_recipe("Recycle Scrap", rival);
    assert_eq!(
        graph.find_production_path("Steel"),
        Some(vec!["Refine Steel".to_string(), "Recycle Scrap".to_string()])
    );
}

#[test]
fn a_reused_name_shadows_the_older_recipe() {
    let mut graph = SupplyChainGraph::new();
    let replacement = Recipe {
        inputs: vec![("Iron Ore".to_string(), 200)],
        outputs: vec![("Steel".to_string(), 100)],
        process_time_seconds: 8,
        energy_cost_kw: 400,
    };
    graph.add_recipe("Refine Steel", replacement.clone());
    assert_eq!(graph.get_recipe("Refine Steel"), Some(&replacement));
}

#[test]
fn one_recipe_can_feed_several_outputs() {
    let mut graph = SupplyChainGraph::new();
    let refinery = Recipe {
        inputs: vec![("Raw Ore".to_string(), 100)],
        outputs: vec![("Iron".to_string(), 40), ("Slag".to_string(), 60)],
        process_time_seconds: 12,
        energy_cost_kw: 300,
    };
    graph.add_recipe("Smelt", refinery);
    assert_eq!(graph.find_production_path("Iron"), Some(vec!["Smelt".to_string()]));
    assert_eq!(graph.find_production_path("Slag"), Some(vec!["Smelt".to_string()]));
}
