use lau_agent_organism::self_model::SelfModel;

#[test]
fn test_self_model_creation() {
    let model = SelfModel::new("test-agent");
    assert_eq!(model.total_theorems(), 14);
    assert_eq!(model.active_count, 14);
}

#[test]
fn test_all_categories_present() {
    let model = SelfModel::new("test");
    assert!(!model.theorems_by_category("perception").is_empty());
    assert!(!model.theorems_by_category("action").is_empty());
    assert!(!model.theorems_by_category("learning").is_empty());
    assert!(!model.theorems_by_category("conservation").is_empty());
    assert!(!model.theorems_by_category("thermodynamics").is_empty());
    assert!(!model.theorems_by_category("delusion").is_empty());
    assert!(!model.theorems_by_category("lifecycle").is_empty());
    assert!(!model.theorems_by_category("meta").is_empty());
}

#[test]
fn test_dependencies_satisfied() {
    let model = SelfModel::new("test");
    let unsatisfied = model.check_dependencies();
    assert!(unsatisfied.is_empty());
}

#[test]
fn test_dependencies_broken_on_deactivate() {
    let mut model = SelfModel::new("test");
    model.deactivate_theorem("Kalman-Hodge");
    let unsatisfied = model.check_dependencies();
    assert!(!unsatisfied.is_empty());
}

#[test]
fn test_offspring_tracking() {
    let model = SelfModel::offspring("child", "parent-1", 2);
    assert_eq!(model.generation, 2);
    assert_eq!(model.parent_id, Some("parent-1".to_string()));
    assert_eq!(model.agent_id, "child");
}

#[test]
fn test_dependency_graph() {
    let model = SelfModel::new("test");
    let graph = model.dependency_graph();
    let entry = graph.iter().find(|(name, _)| name == "LQR Pushforward");
    assert!(entry.is_some());
    assert!(entry.unwrap().1.contains(&"Obs-Ctrl Adjunction".to_string()));
}

#[test]
fn test_active_count_decreases() {
    let mut model = SelfModel::new("test");
    assert_eq!(model.active_count, 14);
    model.deactivate_theorem("Kalman-Hodge");
    assert_eq!(model.active_count, 13);
}

#[test]
fn deactivation_reports_each_dependent() {
    let mut model = SelfModel::new("test");
    model.deactivate_theorem("Kalman-Hodge");
    assert_eq!(
        model.check_dependencies(),
        vec![
            "Spectral Perception depends on inactive Kalman-Hodge".to_string(),
            "Obs-Ctrl Adjunction depends on inactive Kalman-Hodge".to_string(),
            "Fisher-Rao Geodesic depends on inactive Kalman-Hodge".to_string(),
        ]
    );
}

#[test]
fn missing_dependency_is_reported() {
    let mut model = SelfModel::new("test");
    model.theorems[0].dependencies.push("Unknown".to_string());
    assert_eq!(model.check_dependencies(), vec!["Kalman-Hodge depends on missing Unknown".to_string()]);
}

#[test]
fn deactivating_twice_or_unknown_keeps_count() {
    let mut model = SelfModel::new("test");
    model.deactivate_theorem("CALM Merge");
    assert_eq!(model.active_count, 13);
    model.deactivate_theorem("CALM Merge");
    assert_eq!(model.active_count, 13);
    model.deactivate_theorem("No Such Theorem");
    assert_eq!(model.active_count, 13);
    assert_eq!(model.total_theorems(), 14);
}

#[test]
fn failing_health_check_deactivates() {
    let mut model = SelfModel::new("test");
    model.update_health("Varadhan Rate", false);
    assert_eq!(model.active_count, 14);
    model.update_health("Varadhan Rate", true);
    assert_eq!(model.active_count, 13);
    let i = model.find("Varadhan Rate").unwrap();
    assert!(!model.theorems[i].active);
}

#[test]
fn categories_group_the_theorems() {
    let model = SelfModel::new("test");
    let lifecycle: Vec<&str> = model
        .theorems_by_category("lifecycle")
        .iter()
        .map(|t| t.name.as_str())
        .collect();
    assert_eq!(lifecycle, vec!["Colimit Death", "Pullback Birth"]);
    assert!(model.theorems_by_category("unknown").is_empty());
}

#[test]
fn find_locates_theorems_by_name() {
    let model = SelfModel::new("test");
    assert_eq!(model.find("Kalman-Hodge"), Some(0));
    assert_eq!(model.find("Conservation Law"), Some(13));
    assert_eq!(model.find("kalman-hodge"), None);
    assert_eq!(model.generation, 0);
    assert_eq!(model.parent_id, None);
}
