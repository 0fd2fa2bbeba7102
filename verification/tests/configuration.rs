use model_collaboration_engine::assessment::ExecutionClass;
use model_collaboration_engine::binary64::{number, Binary64};
use model_collaboration_engine::configuration::document::{
    Auth, AuthType, Document, ModelDefinition, Provider, ProviderKind, Routing, Runtime, Storage,
};
use model_collaboration_engine::configuration::{error, source_text, ResolvedConfig};
use model_collaboration_engine::contracts::{Endpoint, EngineError, Weights};
use model_collaboration_engine::json::is_text;
use model_collaboration_engine::json::member;
use model_collaboration_engine::text::TextSet;

fn float(x: f64) -> Binary64 {
    number(x.to_bits())
}

fn names(items: &[&str]) -> TextSet {
    let mut out = TextSet::new();
    for item in items {
        out.insert((*item).to_owned());
    }
    out
}

fn definition(id: &str) -> ModelDefinition {
    ModelDefinition {
        id: id.into(),
        model: "model-name".into(),
        version: "1".into(),
        endpoint: Endpoint::ChatCompletions,
        capabilities: names(&["text", "json", "tools"]),
        context_tokens: 32_768,
        input_price: 1,
        output_price: 2,
        price_version: "1".into(),
        acceptance: float(0.8),
        reliability: float(0.9),
        latency_ms: 1000,
        uncertainty: float(0.1),
        execution_class: ExecutionClass::Simple,
    }
}

fn provider(id: &str, base_url: &str, models: Vec<ModelDefinition>) -> Provider {
    Provider {
        id: id.into(),
        kind: ProviderKind::Relay,
        base_url: base_url.into(),
        auth: Auth {
            kind: AuthType::Bearer,
            env: "RELAY_API_KEY".into(),
        },
        endpoints: vec![Endpoint::ChatCompletions],
        region: "test-region".into(),
        local: false,
        models,
    }
}

fn document() -> Document {
    Document {
        schema_version: 1,
        storage: Storage {
            database_path: "ledger.db".into(),
        },
        providers: vec![provider(
            "gateway",
            "https://relay.example/v1",
            vec![definition("local")],
        )],
        routing: Routing {
            planner_models: names(&["local"]),
            profiles: None,
            rankings: None,
            assessment_rules: None,
            decision: None,
            weights: Weights {
                quality: float(0.4),
                capability: float(0.1),
                reliability: float(0.2),
                cost: float(0.1),
                latency: float(0.1),
                uncertainty: float(0.1),
                total: float(1.0),
                version: "1".into(),
            },
        },
        runtime: Runtime {
            max_concurrency: 4,
            event_capacity: 64,
            event_max_bytes: 8192,
            stream_frame_max_bytes: 65_536,
            context_max_bytes: 1_048_576,
            close_grace_ms: 1000,
            cleanup_timeout_ms: 1000,
        },
    }
}

fn resolve(document: Document) -> Result<ResolvedConfig, EngineError> {
    let located = format!("/base/{}", document.storage.database_path);
    ResolvedConfig::resolve(document, Some(located))
}

fn refused(document: Document) -> EngineError {
    match resolve(document) {
        Ok(_) => panic!("the document is accepted"),
        Err(e) => e,
    }
}

fn names_field(error: &EngineError, field: &str) -> bool {
    is_text(member(Some(&error.details), "field"), field)
}

#[test]
fn shared_gateway_resolves_aliases_and_actual_service_identity() {
    let mut doc = document();
    let mut second = definition("second");
    second.model = "upstream/alias".into();
    doc.providers[0].models.push(second);
    let resolved = resolve(doc).unwrap();
    let config = resolved.as_config();
    assert_eq!(config.models.len(), 2);
    assert_eq!(config.models[1].model, "upstream/alias");
    for model in &config.models {
        assert_eq!(model.provider, "gateway");
        assert_eq!(model.base_url, "https://relay.example/v1");
        assert_eq!(model.api_key_env, "RELAY_API_KEY");
        assert!(!model.local);
        assert_eq!(model.region, "test-region");
    }
    assert_eq!(config.database_path, "/base/ledger.db");
}

#[test]
fn configuration_rejects_invalid_references_protocols_and_values_with_paths() {
    let mut cases: Vec<(Document, &str)> = vec![];
    let mut doc = document();
    doc.providers[0].models[0].context_tokens = 0;
    cases.push((doc, "providers[0].models[0]"));
    let mut doc = document();
    doc.schema_version = 2;
    cases.push((doc, "schema_version"));
    let mut doc = document();
    doc.providers[0].models[0].endpoint = Endpoint::Responses;
    cases.push((doc, "providers[0].models[0].endpoint"));
    let mut doc = document();
    doc.providers[0].auth.env = "BAD NAME".into();
    cases.push((doc, "providers[0].auth.env"));
    let mut doc = document();
    doc.providers[0].base_url = "https://relay.example/?key=secret".into();
    cases.push((doc, "providers[0].base_url"));
    let mut doc = document();
    doc.storage.database_path = ":memory:".into();
    cases.push((doc, "storage.database_path"));
    let mut doc = document();
    doc.runtime.max_concurrency = 0;
    cases.push((doc, "runtime"));
    for (doc, field) in cases {
        let error = refused(doc);
        assert_eq!(error.kind, "configuration");
        assert!(names_field(&error, field), "{error:?}");
        assert!(!format!("{error:?}").contains("key=secret"));
    }
}

#[test]
fn duplicate_ids_unknown_fields_and_trailing_json_are_rejected() {
    let mut doc = document();
    doc.providers.push(provider(
        "gateway",
        "https://relay.example/v1",
        vec![definition("local")],
    ));
    assert!(names_field(&refused(doc), "providers[1].id"));
    let mut doc = document();
    doc.providers[0].models.push(definition("local"));
    assert!(names_field(&refused(doc), "providers[0].models[1].id"));
}

#[test]
fn nested_models_preserve_provider_identity_and_global_id_uniqueness() {
    let mut doc = document();
    doc.providers.push(provider(
        "direct",
        "https://direct.example/v1",
        vec![definition("direct-model")],
    ));
    let resolved = resolve(doc).unwrap();
    assert_eq!(resolved.as_config().models[1].provider, "direct");
    assert_eq!(
        resolved.as_config().models[1].base_url,
        "https://direct.example/v1"
    );
    let mut doc = document();
    doc.providers.push(provider(
        "direct",
        "https://direct.example/v1",
        vec![definition("local")],
    ));
    assert!(names_field(&refused(doc), "providers[1].models[0].id"));
}

#[test]
fn old_file_layout_and_empty_provider_models_are_rejected() {
    let mut doc = document();
    doc.providers[0].models = vec![];
    assert!(names_field(&refused(doc), "providers[0].models"));
}

#[test]
fn each_refusal_of_a_document_names_its_field_and_says_why() {
    let mut cases: Vec<(Document, &str, &str)> = vec![];
    let mut doc = document();
    doc.storage.database_path = " \u{3000}".into();
    cases.push((doc, "storage.database_path", "database path must name a file"));
    let mut doc = document();
    doc.providers = vec![];
    cases.push((doc, "providers", "providers must not be empty"));
    let mut doc = document();
    doc.providers[0].region = " ".into();
    cases.push((
        doc,
        "providers[0].id",
        "provider identity and region must be nonempty",
    ));
    for url in ["not a url", "ftp://relay.example/v1", "https://u:p@relay.example/v1"] {
        let mut doc = document();
        doc.providers[0].base_url = url.into();
        cases.push((
            doc,
            "providers[0].base_url",
            if url == "not a url" {
                "invalid service URL"
            } else {
                "service URL must be HTTP(S) without credentials, query or fragment"
            },
        ));
    }
    let mut doc = document();
    doc.providers[0].endpoints = vec![Endpoint::ChatCompletions, Endpoint::ChatCompletions];
    cases.push((
        doc,
        "providers[0].endpoints",
        "service endpoints must be nonempty and unique",
    ));
    let mut doc = document();
    doc.routing.planner_models = names(&["nobody"]);
    cases.push((doc, "routing", "unknown planning model"));
    for (doc, field, message) in cases {
        let error = refused(doc);
        assert!(names_field(&error, field), "{error:?}");
        if field != "routing" {
            assert_eq!(error.message, message);
        }
    }
    let error = ResolvedConfig::resolve(document(), None).unwrap_err();
    assert!(names_field(&error, "storage.database_path"));
    assert_eq!(error.message, "database path must be UTF-8");
}

#[test]
fn trailing_slashes_of_a_service_url_are_dropped() {
    let mut doc = document();
    doc.providers[0].base_url = "https://relay.example/v1//".into();
    let config = resolve(doc).unwrap().into_config();
    assert_eq!(config.models[0].base_url, "https://relay.example/v1");
}

#[test]
fn byte_order_marks_are_skipped_and_long_documents_are_refused() {
    assert_eq!(source_text("\u{feff}\u{feff}{}").unwrap(), "{}");
    assert_eq!(source_text("{}\u{feff}").unwrap(), "{}\u{feff}");
    assert_eq!(source_text(&" ".repeat(1_048_576)).unwrap().len(), 1_048_576);
    let refused = source_text(&" ".repeat(1_048_577)).unwrap_err();
    assert_eq!(refused.message, "configuration exceeds 1 MiB");
    assert!(names_field(&refused, "$"));
    assert_eq!(error("a.b", "wrong").kind, "configuration");
}
