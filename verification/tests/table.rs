use synapse::routing::table::{ChainLeg, RouteTable};

const SAMPLE: &str = r#"
    [routes."gemini-pro"]
    legs = [
      { provider = "vertex", model = "gemini-3-pro" },
      { provider = "qwen", model = "qwen-max" },
    ]
    [routes."fast"]
    legs = [{ provider = "vertex", model = "gemini-3-flash" }]
"#;

/// Reads a routes file into `(alias, legs)` pairs and collects them.
fn from_toml_str(s: &str) -> RouteTable {
    let doc: toml::Table = s.parse().unwrap();
    let routes = doc["routes"].as_table().unwrap();
    let entries = routes
        .iter()
        .map(|(name, entry)| {
            let legs = entry["legs"]
                .as_array()
                .unwrap()
                .iter()
                .map(|l| ChainLeg {
                    provider: l["provider"].as_str().unwrap().to_string(),
                    model: l["model"].as_str().unwrap().to_string(),
                })
                .collect::<Vec<_>>();
            (name.clone(), legs)
        })
        .collect::<Vec<_>>();
    RouteTable::from_routes(entries)
}

fn leg(provider: &str, model: &str) -> ChainLeg {
    ChainLeg { provider: provider.into(), model: model.into() }
}

#[test]
fn parses_and_resolves_legs_in_order() {
    let t = from_toml_str(SAMPLE);
    let legs = t.legs("gemini-pro").unwrap();
    assert_eq!(legs.len(), 2);
    assert_eq!(
        legs[0],
        ChainLeg {
            provider: "vertex".into(),
            model: "gemini-3-pro".into()
        }
    );
    assert_eq!(legs[1].provider, "qwen");
    assert!(t.legs("nope").is_none());
}

#[test]
fn aliases_are_sorted() {
    let t = from_toml_str(SAMPLE);
    assert_eq!(
        t.aliases(),
        vec!["fast".to_string(), "gemini-pro".to_string()]
    );
}

#[test]
fn referenced_providers_collected() {
    let t = from_toml_str(SAMPLE);
    let p = t.referenced_providers();
    assert!(p.contains("vertex"));
    assert!(p.contains("qwen"));
}

#[test]
fn later_entry_for_an_alias_replaces_earlier() {
    let t = RouteTable::from_routes(vec![
        ("a".to_string(), vec![leg("x", "1")]),
        ("b".to_string(), vec![leg("y", "2")]),
        ("a".to_string(), vec![leg("z", "3"), leg("w", "4")]),
    ]);
    assert_eq!(t.legs("a").unwrap(), &[leg("z", "3"), leg("w", "4")]);
    assert_eq!(t.aliases(), vec!["a".to_string(), "b".to_string()]);
}

#[test]
fn aliases_sort_by_code_point_without_repeats() {
    let mut t = RouteTable::new();
    for a in ["zeta", "Zeta", "alpha", "éclair", "alpha", "al"] {
        t.insert(a.to_string(), vec![leg("p", a)]);
    }
    assert_eq!(t.aliases(), vec!["Zeta", "al", "alpha", "zeta", "éclair"]);
    assert_eq!(t.legs("alpha").unwrap()[0].model, "alpha");
}

#[test]
fn providers_are_collected_once_each() {
    let t = RouteTable::from_routes(vec![
        ("a".to_string(), vec![leg("vertex", "1"), leg("qwen", "2")]),
        ("b".to_string(), vec![leg("vertex", "3")]),
        ("c".to_string(), vec![]),
    ]);
    let p = t.referenced_providers();
    assert_eq!(p.len(), 2);
    assert!(p.contains("vertex") && p.contains("qwen"));
    assert!(t.legs("c").unwrap().is_empty());
}

#[test]
fn empty_table_has_nothing() {
    let t = RouteTable::new();
    assert!(t.aliases().is_empty());
    assert!(t.referenced_providers().is_empty());
    assert!(t.legs("").is_none());
}
