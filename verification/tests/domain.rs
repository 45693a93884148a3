use lotus_script::input::ActionStateKind;
use lotus_script::log::Level;
use lotus_script::module::on_negative_to_none;
use lotus_script::types::{TriggerEvent, TriggerKind};
use lotus_script::vehicle::{
    map_physics_sentinels, Axle, Bogie, RailQuality, SurfaceType, VehicleError,
};

#[test]
fn nan_maps_to_vehicle_not_found() {
    let bits = f32::NAN.to_bits();
    assert_eq!(
        map_physics_sentinels(bits, VehicleError::AxleNotFound),
        Err(VehicleError::VehicleNotFound)
    );
}

#[test]
fn infinities_map_to_the_missing_part() {
    let pos = f32::INFINITY.to_bits();
    let neg = f32::NEG_INFINITY.to_bits();
    assert_eq!(
        map_physics_sentinels(pos, VehicleError::BogieNotFound),
        Err(VehicleError::BogieNotFound)
    );
    assert_eq!(
        map_physics_sentinels(neg, VehicleError::PantographNotFound),
        Err(VehicleError::PantographNotFound)
    );
}

#[test]
fn finite_values_pass_through_unchanged() {
    let bits = 0.01f32.to_bits();
    assert_eq!(map_physics_sentinels(bits, VehicleError::AxleNotFound), Ok(bits));
    let zero = 0.0f32.to_bits();
    assert_eq!(map_physics_sentinels(zero, VehicleError::AxleNotFound), Ok(zero));
}

#[test]
fn vehicle_error_codes() {
    assert_eq!(VehicleError::from(256u32), VehicleError::VehicleNotFound);
    assert_eq!(VehicleError::from(512u32), VehicleError::BogieNotFound);
    assert_eq!(VehicleError::from(1024u32), VehicleError::AxleNotFound);
    assert_eq!(VehicleError::from(2048u32), VehicleError::PantographNotFound);
    assert_eq!(VehicleError::from(7u32), VehicleError::Unknown);
}

#[test]
fn bogie_and_axle_validity() {
    let bogie = Bogie::get(2, 0).expect("code zero means valid");
    assert_eq!(bogie.index(), 2);
    assert_eq!(Bogie::get(9, 512), Err(VehicleError::BogieNotFound));

    let axle = Axle::get(1, 0, 0).expect("code zero means valid");
    assert_eq!(axle.bogie_index(), 1);
    assert_eq!(axle.axle_index(), 0);
    assert_eq!(axle.bogie().index(), 1);
    assert_eq!(Axle::get(1, 3, 1024), Err(VehicleError::AxleNotFound));
}

#[test]
fn rail_quality_and_surface_codes() {
    assert_eq!(RailQuality::try_from(0), Ok(RailQuality::Smooth));
    assert_eq!(RailQuality::try_from(7), Ok(RailQuality::RoughDirt));
    assert_eq!(RailQuality::try_from(2048), Err(VehicleError::PantographNotFound));
    assert_eq!(SurfaceType::try_from(1), Ok(SurfaceType::Street));
    assert_eq!(SurfaceType::try_from(99), Err(VehicleError::Unknown));
}

#[test]
fn action_state_kind_predicates() {
    assert!(ActionStateKind::JustPressed.is_just_pressed());
    assert!(ActionStateKind::JustPressed.is_pressed());
    assert!(ActionStateKind::Pressed.is_pressed());
    assert!(!ActionStateKind::Pressed.is_just_pressed());
    assert!(ActionStateKind::JustReleased.is_just_released());
    assert!(ActionStateKind::JustReleased.is_released());
    assert!(ActionStateKind::Idle.is_released());
    assert!(!ActionStateKind::Idle.is_pressed());
}

#[test]
fn trigger_predicates() {
    let enter = TriggerEvent {
        id: "t".to_string(),
        sensor_index: 0,
        kind: TriggerKind::Enter,
    };
    assert!(enter.is_enter() && !enter.is_leave());
    assert!(TriggerKind::Leave.is_leave() && !TriggerKind::Leave.is_enter());
}

#[test]
fn velocity_variable_name() {
    let axle = Axle::get(1, 12, 0).expect("code zero means valid");
    assert_eq!(axle.velocity_var_name(), "v_Axle_mps_1_12");
    let axle = Axle::get(0, 0, 0).expect("code zero means valid");
    assert_eq!(axle.velocity_var_name(), "v_Axle_mps_0_0");
    let axle = Axle::get(40, 705, 0).expect("code zero means valid");
    assert_eq!(axle.velocity_var_name(), "v_Axle_mps_40_705");
}

#[test]
fn log_level_codes() {
    assert_eq!(Level::Debug.code(), 0);
    assert_eq!(Level::Info.code(), 1);
    assert_eq!(Level::Warn.code(), 2);
    assert_eq!(Level::Error.code(), 3);
}

#[test]
fn negative_module_index_means_none() {
    assert_eq!(on_negative_to_none(-1), None);
    assert_eq!(on_negative_to_none(-7), None);
    assert_eq!(on_negative_to_none(0), Some(0));
    assert_eq!(on_negative_to_none(3), Some(3));
}
