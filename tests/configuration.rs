use flocking::configuration::{
    ConfigField, ConfigurationStore, SimulationConfig, MAX_DETECTION_DENSITY, PARAM_LIMIT,
};

#[test]
fn default_configuration() {
    let c = SimulationConfig::default();
    assert_eq!(c.max_force, 750);
    assert_eq!(c.max_speed, 150_000);
    assert_eq!(c.vision_radius, 1500);
    assert_eq!(c.separation_strength, 1050);
    assert_eq!(c.cohesion_strength, 1000);
    assert_eq!(c.alignment_strength, 200);
    assert_eq!(c.seek_strength, 100);
    assert_eq!(c.obstacle_detection_density, 10);
    assert_eq!(c.obstacle_detection_radius_rel, 500);
    assert_eq!(c.obstacle_avoidance_strength, 2000);
}

#[test]
fn set_then_get_gives_the_value_back() {
    let fields = [
        ConfigField::MaxForce,
        ConfigField::MaxSpeed,
        ConfigField::VisionRadius,
        ConfigField::SeparationStrength,
        ConfigField::CohesionStrength,
        ConfigField::AlignmentStrength,
        ConfigField::SeekStrength,
        ConfigField::ObstacleDetectionDensity,
        ConfigField::ObstacleDetectionRadiusRel,
        ConfigField::ObstacleAvoidanceStrength,
    ];
    for (k, f) in fields.iter().enumerate() {
        let mut store = ConfigurationStore::new(SimulationConfig::default());
        let v = 7 + k as i64;
        store.set(*f, v);
        assert_eq!(store.get(*f), v);
        assert!(store.changed);
    }
}

#[test]
fn out_of_range_values_are_clamped() {
    let mut c = SimulationConfig::default();
    c.set(ConfigField::SeparationStrength, -5);
    assert_eq!(c.get(ConfigField::SeparationStrength), 0);
    c.set(ConfigField::MaxSpeed, PARAM_LIMIT + 1);
    assert_eq!(c.get(ConfigField::MaxSpeed), PARAM_LIMIT);
    c.set(ConfigField::ObstacleDetectionDensity, 1000);
    assert_eq!(c.get(ConfigField::ObstacleDetectionDensity), MAX_DETECTION_DENSITY);
}

#[test]
fn derived_quantities_follow_the_configuration() {
    let mut store = ConfigurationStore::new(SimulationConfig::default());
    assert!(store.apply_changes());
    assert_eq!(store.max_speed.0, 150_000);
    assert_eq!(store.max_force.0, 112_500);
    assert_eq!(store.vision_radius.0, 225_000);
    assert!(!store.changed);
    assert!(!store.apply_changes());
    store.set(ConfigField::MaxSpeed, 100_000);
    assert_eq!(store.max_force.0, 112_500);
    assert!(store.apply_changes());
    assert_eq!(store.max_speed.0, 100_000);
    assert_eq!(store.max_force.0, 75_000);
    assert_eq!(store.vision_radius.0, 150_000);
}

#[test]
fn each_derivation_reads_the_configuration() {
    let mut store = ConfigurationStore::new(SimulationConfig::default());
    store.update_max_speed();
    store.update_max_force();
    store.update_vision_radius();
    assert_eq!(store.max_speed.0, 150_000);
    assert_eq!(store.max_force.0, 112_500);
    assert_eq!(store.vision_radius.0, 225_000);
    store.update_vision_radius();
    assert_eq!(store.vision_radius.0, 225_000);
    assert_eq!(store.config, SimulationConfig::default());
}

#[test]
fn derivation_is_repeatable() {
    let mut a = ConfigurationStore::new(SimulationConfig::default());
    let mut b = ConfigurationStore::new(SimulationConfig::default());
    a.set(ConfigField::VisionRadius, 2000);
    b.set(ConfigField::VisionRadius, 2000);
    a.apply_changes();
    b.apply_changes();
    a.set(ConfigField::VisionRadius, 2000);
    a.apply_changes();
    assert_eq!(a.max_speed, b.max_speed);
    assert_eq!(a.max_force, b.max_force);
    assert_eq!(a.vision_radius, b.vision_radius);
    assert_eq!(a.vision_radius.0, 300_000);
}
