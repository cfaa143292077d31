use telemetry_pipeline::schema::{
    extract_model_names, platform_models_filter, require_connection_definition_id,
    shape_public_schema_filter, CreateEventRequest, CreateRequest, FilterKey, FilterValue,
    MappingInfo, ModelSchema, PublicGetConnectionModelSchema, PublicSchemaRow, QueryFilter,
    SchemaQueryError, StoreName,
};

#[test]
fn public_schema_shaping_drops_scoping_and_requires_mapping() {
    let mut f = QueryFilter {
        entries: vec![
            (FilterKey::Other("connectionDefinitionId".to_string()), FilterValue::Text("cd_1".to_string())),
            (FilterKey::OwnershipBuildableId, FilterValue::Text("b_1".to_string())),
            (FilterKey::Environment, FilterValue::Text("live".to_string())),
            (FilterKey::Mapping, FilterValue::Text("stale".to_string())),
        ],
    };
    shape_public_schema_filter(&mut f);
    assert_eq!(
        f.entries,
        vec![
            (FilterKey::Other("connectionDefinitionId".to_string()), FilterValue::Text("cd_1".to_string())),
            (FilterKey::Mapping, FilterValue::NonNull),
        ]
    );
}

#[test]
fn missing_connection_definition_id_is_rejected() {
    let f = QueryFilter {
        entries: vec![(FilterKey::Environment, FilterValue::Text("test".to_string()))],
    };
    assert_eq!(
        require_connection_definition_id(&f),
        Err(SchemaQueryError::MissingConnectionDefinitionId)
    );
    let f = QueryFilter {
        entries: vec![
            (FilterKey::Environment, FilterValue::Text("test".to_string())),
            (FilterKey::ConnectionDefinitionId, FilterValue::Text("cd_1".to_string())),
        ],
    };
    assert_eq!(require_connection_definition_id(&f), Ok(()));
}

#[test]
fn platform_models_read_filters_by_platform_and_mapping() {
    let f = platform_models_filter("stripe".to_string());
    assert_eq!(
        f.entries,
        vec![
            (FilterKey::ConnectionPlatform, FilterValue::Text("stripe".to_string())),
            (FilterKey::Mapping, FilterValue::NonNull),
        ]
    );
}

fn row(platform: &str, model: &str) -> PublicSchemaRow {
    PublicSchemaRow {
        connection_platform: platform.to_string(),
        mapping: MappingInfo { common_model_name: model.to_string() },
    }
}

#[test]
fn model_names_are_extracted_in_row_order() {
    let rows = vec![row("stripe", "Customer"), row("stripe", "Invoice")];
    let names = extract_model_names(&rows);
    assert_eq!(names, vec!["Customer".to_string(), "Invoice".to_string()]);
}

fn request() -> CreateRequest {
    CreateRequest {
        platform_id: "plf_1".to_string(),
        platform_page_id: "plp_1".to_string(),
        connection_platform: "Stripe".to_string(),
        connection_definition_id: "cd_1".to_string(),
        platform_version: "V1".to_string(),
        model_name: "Customer".to_string(),
        schema_document: "{\"type\":\"object\"}".to_string(),
        sample_document: "{}".to_string(),
        paths: None,
        mapping: Some(MappingInfo { common_model_name: "customers".to_string() }),
    }
}

#[test]
fn into_public_builds_the_lowercased_key() {
    let out = request().into_public("cms_1".to_string());
    assert_eq!(out.id, "cms_1");
    assert_eq!(out.key, "api::stripe::v1::customer");
    assert_eq!(out.connection_platform, "Stripe");
    assert_eq!(out.platform_version, "V1");
    assert_eq!(out.model_name, "Customer");
    assert_eq!(out.mapping, Some(MappingInfo { common_model_name: "customers".to_string() }));
    assert_eq!(out.paths, None);
}

#[test]
fn update_overwrites_fields_but_keeps_id_and_key() {
    let mut record: ModelSchema = request().into_public("cms_1".to_string());
    let mut newer = request();
    newer.platform_version = "V2".to_string();
    newer.sample_document = "{\"id\":1}".to_string();
    newer.update(&mut record);
    assert_eq!(record.id, "cms_1");
    assert_eq!(record.key, "api::stripe::v1::customer");
    assert_eq!(record.platform_version, "V2");
    assert_eq!(record.sample_document, "{\"id\":1}");
}

#[test]
fn request_types_select_their_stores() {
    assert_eq!(CreateEventRequest::get_store(), StoreName::Events);
    assert_eq!(CreateRequest::get_store(), StoreName::ConnectionModelSchemas);
    assert_eq!(
        PublicGetConnectionModelSchema::get_store(),
        StoreName::PublicConnectionModelSchemas
    );
}
