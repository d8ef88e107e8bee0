use community_simulation::component::{Component, ComponentContainer};
use std::any::Any;

#[derive(Debug, Clone)]
struct TradingBehaviorComponent {
    risk_tolerance: f64,
}

impl TradingBehaviorComponent {
    fn new(risk_tolerance: f64) -> Self {
        assert!((0.0..=1.0).contains(&risk_tolerance), "Risk tolerance must be between 0.0 and 1.0");
        Self { risk_tolerance }
    }

    fn risk_tolerance(&self) -> f64 {
        self.risk_tolerance
    }

    fn set_risk_tolerance(&mut self, new_tolerance: f64) {
        assert!((0.0..=1.0).contains(&new_tolerance), "Risk tolerance must be between 0.0 and 1.0");
        self.risk_tolerance = new_tolerance;
    }

    fn as_any(&self) -> &dyn Any {
        self
    }

    fn as_any_mut(&mut self) -> &mut dyn Any {
        self
    }
}

impl Component for TradingBehaviorComponent {
    fn identifier(&self) -> &str {
        "TradingBehavior"
    }
}

#[derive(Debug, Clone)]
struct Named(&'static str);

impl Component for Named {
    fn identifier(&self) -> &str {
        self.0
    }
}

#[test]
fn test_component_container_basic() {
    let mut container = ComponentContainer::new();
    assert_eq!(container.count(), 0);

    let component = Box::new(TradingBehaviorComponent::new(0.5));
    container.add_component(component);

    assert_eq!(container.count(), 1);
    assert!(container.has_component("TradingBehavior"));
}

#[test]
fn test_component_retrieval() {
    let mut container = ComponentContainer::new();
    let component = Box::new(TradingBehaviorComponent::new(0.7));
    container.add_component(component);

    let retrieved = container.get_component("TradingBehavior");
    assert!(retrieved.is_some());

    if let Some(component) = retrieved {
        let trading = component.as_any().downcast_ref::<TradingBehaviorComponent>();
        assert!(trading.is_some());
        assert_eq!(trading.unwrap().risk_tolerance(), 0.7);
    }
}

#[test]
fn test_component_mutation() {
    let mut container = ComponentContainer::new();
    container.add_component(Box::new(TradingBehaviorComponent::new(0.5)));

    if let Some(component) = container.get_component_mut("TradingBehavior") {
        if let Some(trading) = component.as_any_mut().downcast_mut::<TradingBehaviorComponent>() {
            trading.set_risk_tolerance(0.9);
        }
    }

    let retrieved = container.get_component("TradingBehavior").unwrap();
    let trading = retrieved.as_any().downcast_ref::<TradingBehaviorComponent>().unwrap();
    assert_eq!(trading.risk_tolerance(), 0.9);
}

#[test]
fn test_component_removal() {
    let mut container = ComponentContainer::new();
    container.add_component(Box::new(TradingBehaviorComponent::new(0.5)));

    assert!(container.has_component("TradingBehavior"));
    let removed = container.remove_component("TradingBehavior");
    assert!(removed.is_some());
    assert!(!container.has_component("TradingBehavior"));
    assert_eq!(container.count(), 0);
}

#[test]
fn test_component_replacement() {
    let mut container = ComponentContainer::new();

    let old = container.add_component(Box::new(TradingBehaviorComponent::new(0.5)));
    assert!(old.is_none());

    let old = container.add_component(Box::new(TradingBehaviorComponent::new(0.8)));
    assert!(old.is_some());

    let current = container.get_component("TradingBehavior").unwrap();
    let trading = current.as_any().downcast_ref::<TradingBehaviorComponent>().unwrap();
    assert_eq!(trading.risk_tolerance(), 0.8);
}

#[test]
fn test_component_container_clone() {
    let mut container = ComponentContainer::new();
    container.add_component(Box::new(TradingBehaviorComponent::new(0.7)));

    let cloned = container.clone();
    assert_eq!(cloned.count(), 1);
    assert!(cloned.has_component("TradingBehavior"));

    let component = cloned.get_component("TradingBehavior").unwrap();
    let trading = component.as_any().downcast_ref::<TradingBehaviorComponent>().unwrap();
    assert_eq!(trading.risk_tolerance(), 0.7);
}

#[test]
fn test_component_container_clear() {
    let mut container = ComponentContainer::new();
    container.add_component(Box::new(TradingBehaviorComponent::new(0.5)));
    assert_eq!(container.count(), 1);

    container.clear();
    assert_eq!(container.count(), 0);
    assert!(!container.has_component("TradingBehavior"));
}

#[test]
fn test_component_identifiers() {
    let mut container = ComponentContainer::new();
    container.add_component(Box::new(TradingBehaviorComponent::new(0.5)));

    let ids: Vec<&str> = container.identifiers();
    assert_eq!(ids.len(), 1);
    assert!(ids.contains(&"TradingBehavior"));
}

#[test]
fn heterogeneous_components_behind_dyn() {
    let mut container: ComponentContainer = ComponentContainer::new();
    assert!(container.add_component(Box::new(Named("A"))).is_none());
    assert!(container.add_component(Box::new(Named("B"))).is_none());
    assert!(container.add_component(Box::new(TradingBehaviorComponent::new(0.2))).is_none());
    assert!(container.add_component(Box::new(Named("A"))).is_some());
    assert_eq!(container.count(), 3);
    let mut ids = container.identifiers();
    ids.sort();
    assert_eq!(ids, vec!["A", "B", "TradingBehavior"]);
    assert_eq!(container.get_component("B").map(|c| c.identifier().to_string()), Some("B".to_string()));
    assert!(container.get_component("C").is_none());
    assert!(container.get_component_mut("C").is_none());
    assert_eq!(container.remove_component("A").map(|c| c.identifier().to_string()), Some("A".to_string()));
    assert!(container.remove_component("A").is_none());
    assert_eq!(container.count(), 2);
    let default_container: ComponentContainer = ComponentContainer::default();
    assert_eq!(default_container.count(), 0);
}
