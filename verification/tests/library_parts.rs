use engine_query::config::{Config, Header, HeaderId, HeaderValue, OperationLimits, StringId, SubgraphConfig};
use engine_query::coordinator::{
    runs_to_completion, subscription_step, ExecutionAction, ExecutionEvent, OperationExecution, SubscriptionAction,
    SubscriptionEvent, SubscriptionPhase,
};
use engine_query::ids::{DefinitionId, FieldId, StringId as SchemaStringId, MAX_ID};
use engine_query::kv::{finish_get_json, finish_get_json_or_null, prepare_put_json, KvError};
use engine_query::merged_object::{
    gql_typename, merged_object_expr, merged_object_fields, merged_object_type, resolve_container_call,
    MergedObjectData, MergedObjectError,
};
use engine_query::query::OperationType;

fn json_error() -> serde_json::Error {
    serde_json::from_str::<u32>("not json").unwrap_err()
}

#[test]
fn operation_limits_default_to_none() {
    let limits = OperationLimits::default();
    assert!(limits.depth.is_none());
    assert!(limits.height.is_none());
    assert!(limits.aliases.is_none());
    assert!(limits.root_fields.is_none());
    assert!(limits.complexity.is_none());
}

#[test]
fn config_lookups() {
    let config = Config {
        strings: vec!["authorization".to_string(), "x-api-key".to_string(), "secret".to_string()],
        headers: vec![
            Header { name: StringId(0), value: HeaderValue::Forward(StringId(0)) },
            Header { name: StringId(1), value: HeaderValue::Static(StringId(2)) },
        ],
        default_headers: vec![HeaderId(0)],
        subgraph_configs: std::collections::BTreeMap::from([(
            0usize,
            SubgraphConfig { websocket_url: None, headers: vec![HeaderId(1)] },
        )]),
        operation_limits: OperationLimits::default(),
    };
    assert_eq!(config.string(StringId(1)), "x-api-key");
    let header = config.header(HeaderId(1));
    assert_eq!(header.name, StringId(1));
    match header.value {
        HeaderValue::Static(id) => assert_eq!(config.string(id), "secret"),
        HeaderValue::Forward(_) => panic!("expected a static header"),
    }
    assert_eq!(config.subgraph_configs[&0].headers[0].0, 1);
    assert!(StringId(1) < StringId(2));
}

#[test]
fn get_json_or_null_reads_undecodable_values_as_absent() {
    assert!(matches!(finish_get_json_or_null::<u32>(None), Ok(None)));
    assert!(matches!(finish_get_json_or_null::<u32>(Some(Ok(5))), Ok(Some(5))));
    assert!(matches!(finish_get_json_or_null::<u32>(Some(Err(json_error()))), Ok(None)));
}

#[test]
fn get_json_reports_undecodable_values() {
    assert!(matches!(finish_get_json::<u32>(None), Ok(None)));
    assert!(matches!(finish_get_json::<u32>(Some(Ok(5))), Ok(Some(5))));
    assert!(matches!(finish_get_json::<u32>(Some(Err(json_error()))), Err(KvError::Serialization(_))));
}

#[test]
fn put_json_stops_on_encoding_errors() {
    assert!(matches!(prepare_put_json(Ok(vec![1, 2])), Ok(ref b) if b == &vec![1u8, 2]));
    assert!(matches!(prepare_put_json(Err(json_error())), Err(KvError::Serialization(_))));
}

#[test]
fn execution_runs_plans_and_collects_errors() {
    let mut e = OperationExecution::new();
    assert!(matches!(e.step(ExecutionEvent::PlanReady { plan_id: 1, boundary_items: 0 }), ExecutionAction::Skip));
    assert!(matches!(e.step(ExecutionEvent::PlanReady { plan_id: 2, boundary_items: 3 }), ExecutionAction::BuildExecutor(2)));
    assert!(matches!(e.step(ExecutionEvent::ExecutorBuilt { plan_id: 2, succeeded: true }), ExecutionAction::Spawn(2)));
    assert!(matches!(e.step(ExecutionEvent::ExecutorBuilt { plan_id: 3, succeeded: false }), ExecutionAction::PushError));
    assert!(matches!(e.step(ExecutionEvent::ExecutorBuilt { plan_id: 4, succeeded: true }), ExecutionAction::Spawn(4)));
    assert!(e.is_in_flight(2) && e.is_in_flight(4) && !e.is_in_flight(3));
    assert!(matches!(
        e.step(ExecutionEvent::ExecutorFinished { plan_id: 2, succeeded: true }),
        ExecutionAction::IngestAndScheduleNext(2)
    ));
    assert!(!e.is_in_flight(2));
    assert!(e.has_in_flight());
    assert!(matches!(e.step(ExecutionEvent::ExecutorFinished { plan_id: 4, succeeded: false }), ExecutionAction::PushError));
    assert!(!e.has_in_flight());
    assert!(matches!(e.step(ExecutionEvent::NoneLeft), ExecutionAction::BuildResponse));
}

#[test]
fn subscription_steps() {
    let (p, a) = subscription_step(SubscriptionPhase::Starting, SubscriptionEvent::StreamBuilt { succeeded: false });
    assert!(matches!(p, SubscriptionPhase::Stopped) && matches!(a, SubscriptionAction::SendErrorAndStop));
    let (p, a) = subscription_step(SubscriptionPhase::Starting, SubscriptionEvent::StreamBuilt { succeeded: true });
    assert!(matches!(p, SubscriptionPhase::Streaming) && matches!(a, SubscriptionAction::AwaitNext));
    let (p, a) = subscription_step(p, SubscriptionEvent::Item);
    assert!(matches!(p, SubscriptionPhase::Sending) && matches!(a, SubscriptionAction::ExecuteAndSend));
    let (p, a) = subscription_step(p, SubscriptionEvent::Sent { succeeded: true });
    assert!(matches!(p, SubscriptionPhase::Streaming) && matches!(a, SubscriptionAction::AwaitNext));
    let (p, _) = subscription_step(p, SubscriptionEvent::Item);
    let (p, a) = subscription_step(p, SubscriptionEvent::Sent { succeeded: false });
    assert!(matches!(p, SubscriptionPhase::Stopped) && matches!(a, SubscriptionAction::Stop));
    let (p, a) = subscription_step(p, SubscriptionEvent::Item);
    assert!(matches!(p, SubscriptionPhase::Stopped) && matches!(a, SubscriptionAction::Stop));
    let (p, a) = subscription_step(SubscriptionPhase::Streaming, SubscriptionEvent::StreamEnded);
    assert!(matches!(p, SubscriptionPhase::Stopped) && matches!(a, SubscriptionAction::Stop));
}

#[test]
fn only_queries_and_mutations_run_to_completion() {
    assert!(runs_to_completion(OperationType::Query));
    assert!(runs_to_completion(OperationType::Mutation));
    assert!(!runs_to_completion(OperationType::Subscription));
}

#[test]
fn merged_object_chains() {
    assert_eq!(merged_object_expr("c", 0), "c::MergedObjectTail");
    assert_eq!(
        merged_object_expr("c", 3),
        "c::MergedObject(&self.2, c::MergedObject(&self.1, c::MergedObject(&self.0, c::MergedObjectTail)))"
    );
    assert_eq!(
        merged_object_expr("c", 11).split("&self.10,").count(),
        2
    );
    assert_eq!(
        merged_object_type("c", &vec!["A".to_string(), "B".to_string()]),
        "c::MergedObject::<B, c::MergedObject::<A, c::MergedObjectTail>>"
    );
    assert_eq!(
        resolve_container_call("c", true),
        "c::resolver_utils::resolve_container_serial_native(ctx, self).await"
    );
    assert_eq!(resolve_container_call("c", false), "c::resolver_utils::resolve_container_native(ctx, self).await");
}

#[test]
fn merged_object_accepts_only_structs() {
    let data = MergedObjectData::Struct(vec!["A".to_string()]);
    assert_eq!(merged_object_fields(&data).unwrap().len(), 1);
    let err = merged_object_fields(&MergedObjectData::Other).unwrap_err();
    assert_eq!(err, MergedObjectError::NotAStruct);
    assert_eq!(err.message(), "MergedObject can only be applied to an struct.");
    assert_eq!(gql_typename(&Some("Given".to_string()), &"Renamed".to_string()), "Given");
    assert_eq!(gql_typename(&None, &"Renamed".to_string()), "Renamed");
}

#[test]
fn ids_round_trip() {
    let id = DefinitionId::from_index(0);
    assert_eq!(usize::from(id), 0);
    let last = FieldId::from_index(MAX_ID);
    assert_eq!(usize::from(last), MAX_ID);
    assert_eq!(u32::from(last), (1u32 << 29) - 1);
    assert_eq!(u32::from(SchemaStringId::from_index(42)), 42);
    assert!(DefinitionId::from_index(3) < DefinitionId::from_index(4));
    assert_eq!(DefinitionId::from_index(5), DefinitionId::from_index(5));
}
