use gateway_api::gatewayclasses::{
    GatewayClassParametersRef, GatewayClassSpec, GatewayClassStatus, GatewayClassStatusConditions,
    GatewayClassStatusConditionsStatus,
};

#[test]
fn gateway_class_values_hold_their_fields() {
    let spec = GatewayClassSpec {
        controller_name: "example.net/gateway-controller".to_string(),
        description: None,
        parameters_ref: Some(GatewayClassParametersRef {
            group: "".to_string(),
            kind: "ConfigMap".to_string(),
            name: "params".to_string(),
            namespace: Some("default".to_string()),
        }),
    };
    let copy = spec.clone();
    assert_eq!(copy.controller_name, "example.net/gateway-controller");
    assert_eq!(copy.parameters_ref.unwrap().kind, "ConfigMap");

    let status = GatewayClassStatus {
        conditions: Some(vec![GatewayClassStatusConditions {
            last_transition_time: "2024-01-01T00:00:00Z".to_string(),
            message: "".to_string(),
            observed_generation: Some(1),
            reason: "Accepted".to_string(),
            status: GatewayClassStatusConditionsStatus::True,
            type_: "Accepted".to_string(),
        }]),
        supported_features: None,
    };
    let condition = &status.conditions.as_ref().unwrap()[0];
    assert_eq!(condition.status, GatewayClassStatusConditionsStatus::True);
    assert_ne!(condition.status, GatewayClassStatusConditionsStatus::Unknown);
}
