use elastic_loader::config::BulkElasticLoad;
use elastic_loader::config::BulkElasticLoadBuilder;
use elastic_loader::config::ConfigError;
use elastic_loader::config::Credentials;
use elastic_loader::config::ElasticLoad;
use elastic_loader::config::LoaderKind;
use elastic_loader::config::RefreshMode;
use elastic_loader::config::SingleElasticLoad;
use elastic_loader::config::SingleElasticLoadBuilder;
use elastic_loader::config::DEFAULT_BULK_SIZE;
use elastic_loader::config::DEFAULT_SIMULTANEOUS_REQUESTS;
use elastic_loader::engine::Action;
use elastic_loader::engine::Phase;
use elastic_loader::batch::Batch;
use elastic_loader::report::records_per_second;

fn credentials() -> Credentials {
    Credentials { username: "elastic".to_string(), password: "changeme".to_string() }
}

#[test]
fn refresh_mode_follows_the_flag() {
    assert_eq!(RefreshMode::from_flag("true"), RefreshMode::ImmediateRefresh);
    assert_eq!(RefreshMode::from_flag("wait_for"), RefreshMode::WaitForRefresh);
    assert_eq!(RefreshMode::from_flag("false"), RefreshMode::NoRefresh);
    assert_eq!(RefreshMode::from_flag(""), RefreshMode::NoRefresh);
    assert_eq!(RefreshMode::from_flag("True"), RefreshMode::NoRefresh);
    assert_eq!(RefreshMode::from_flag("wait"), RefreshMode::NoRefresh);
}

#[test]
fn loader_kind_follows_the_batch_size() {
    assert_eq!(LoaderKind::for_batch_size(0), LoaderKind::Single);
    assert_eq!(LoaderKind::for_batch_size(1), LoaderKind::Single);
    assert_eq!(LoaderKind::for_batch_size(2), LoaderKind::Bulk);
    assert_eq!(LoaderKind::for_batch_size(10000), LoaderKind::Bulk);
}

#[test]
fn bulk_builder_starts_with_the_defaults() {
    assert_eq!(DEFAULT_BULK_SIZE, 10000);
    assert_eq!(DEFAULT_SIMULTANEOUS_REQUESTS, 1);
    let loader = BulkElasticLoad::builder().build().unwrap();
    assert_eq!(loader.uri(), "https://127.0.0.1:9200/");
    assert_eq!(loader.credentials(), &None);
    assert_eq!(loader.index(), &None);
    assert_eq!(loader.batch_size(), 10000);
    assert_eq!(loader.refresh(), RefreshMode::NoRefresh);
    assert_eq!(loader.throttle(), 1);
}

#[test]
fn bulk_builder_keeps_what_it_is_given() {
    let loader = BulkElasticLoadBuilder::new()
        .with_uri("http://search.example:9200/".to_string())
        .with_credentials(credentials())
        .with_index("motor-vehicle-crashes".to_string())
        .with_throttle(5)
        .with_refresh(RefreshMode::WaitForRefresh)
        .with_batch_size(500)
        .build()
        .unwrap();
    assert_eq!(loader.uri(), "http://search.example:9200/");
    assert_eq!(loader.credentials(), &Some(credentials()));
    assert_eq!(loader.index(), &Some("motor-vehicle-crashes".to_string()));
    assert_eq!(loader.batch_size(), 500);
    assert_eq!(loader.refresh(), RefreshMode::WaitForRefresh);
    assert_eq!(loader.throttle(), 5);
}

#[test]
fn bulk_build_refuses_an_address_that_does_not_parse() {
    let built = BulkElasticLoadBuilder::new().with_uri("not a url".to_string()).build();
    assert!(matches!(built, Err(ConfigError::InvalidUri { .. })));
    let built = BulkElasticLoadBuilder::new().with_uri(String::new()).with_batch_size(0).build();
    assert!(matches!(built, Err(ConfigError::InvalidUri { .. })));
}

#[test]
fn bulk_build_refuses_zero_batch_size_and_zero_throttle() {
    let built = BulkElasticLoadBuilder::new().with_batch_size(0).with_throttle(0).build();
    assert_eq!(built.err(), Some(ConfigError::ZeroBatchSize));
    let built = BulkElasticLoadBuilder::new().with_throttle(0).build();
    assert_eq!(built.err(), Some(ConfigError::ZeroThrottle));
}

#[test]
fn bulk_validate_takes_the_outcome_of_parsing() {
    let built = BulkElasticLoadBuilder::new().validate(Some("relative URL".to_string()));
    assert_eq!(built.err(), Some(ConfigError::InvalidUri { message: "relative URL".to_string() }));
    let built = BulkElasticLoadBuilder::new().with_batch_size(0).validate(None);
    assert_eq!(built.err(), Some(ConfigError::ZeroBatchSize));
    let built = BulkElasticLoadBuilder::new().with_throttle(0).validate(None);
    assert_eq!(built.err(), Some(ConfigError::ZeroThrottle));
    assert!(BulkElasticLoadBuilder::new().validate(None).is_ok());
}

#[test]
fn single_builder_needs_an_index() {
    let built = SingleElasticLoad::builder().build();
    assert_eq!(built.err(), Some(ConfigError::MissingIndex));
    let built = SingleElasticLoadBuilder::new().with_throttle(0).build();
    assert_eq!(built.err(), Some(ConfigError::MissingIndex));
    let built = SingleElasticLoadBuilder::new().with_uri("::".to_string()).build();
    assert!(matches!(built, Err(ConfigError::InvalidUri { .. })));
    let built = SingleElasticLoadBuilder::new().with_index("crashes".to_string()).with_throttle(0).build();
    assert_eq!(built.err(), Some(ConfigError::ZeroThrottle));
    let built = SingleElasticLoadBuilder::new().validate(Some("bad".to_string()));
    assert_eq!(built.err(), Some(ConfigError::InvalidUri { message: "bad".to_string() }));
}

#[test]
fn single_builder_keeps_what_it_is_given() {
    let loader = SingleElasticLoadBuilder::new()
        .with_uri("http://search.example:9200/".to_string())
        .with_credentials(credentials())
        .with_index("crashes".to_string())
        .with_throttle(10)
        .with_refresh(RefreshMode::ImmediateRefresh)
        .build()
        .unwrap();
    assert_eq!(loader.uri(), "http://search.example:9200/");
    assert_eq!(loader.credentials(), &Some(credentials()));
    assert_eq!(loader.index(), "crashes");
    assert_eq!(loader.throttle(), 10);
    assert_eq!(loader.refresh(), RefreshMode::ImmediateRefresh);
}

#[test]
fn config_error_describes_itself() {
    assert_eq!(ConfigError::MissingIndex.message(), "Index name is required.");
    assert_eq!(ConfigError::ZeroBatchSize.message(), "Batch size must be at least 1.");
    assert_eq!(ConfigError::ZeroThrottle.message(), "Throttle must be at least 1.");
    assert_eq!(ConfigError::InvalidUri { message: "empty host".to_string() }.message(), "empty host");
}

#[test]
fn bulk_loader_starts_a_run_with_its_settings() {
    let loader = BulkElasticLoadBuilder::new().with_batch_size(10).with_throttle(3).build().unwrap();
    let mut engine = loader.load(25);
    assert_eq!(engine.phase(), Phase::Batching);
    assert_eq!(engine.records(), 25);
    assert_eq!(engine.throttle(), 3);
    assert_eq!(engine.step(), Action::Proceed);
    assert_eq!(engine.step(), Action::Dispatch(Batch { first: 0, len: 10 }));
}

#[test]
fn single_loader_writes_one_document_a_call() {
    let loader = SingleElasticLoadBuilder::new()
        .with_index("crashes".to_string())
        .with_throttle(2)
        .build()
        .unwrap();
    let mut engine = loader.load(3);
    assert_eq!(engine.throttle(), 2);
    assert_eq!(engine.step(), Action::Proceed);
    assert_eq!(engine.step(), Action::Dispatch(Batch { first: 0, len: 1 }));
    assert_eq!(engine.step(), Action::Dispatch(Batch { first: 1, len: 1 }));
    assert_eq!(engine.step(), Action::Await);
}

#[test]
fn rate_is_records_by_seconds() {
    assert_eq!(records_per_second(25000, 10), Some(2500));
    assert_eq!(records_per_second(25000, 0), Some(25000));
    assert_eq!(records_per_second(25000, 1), Some(25000));
    assert_eq!(records_per_second(7, 2), Some(3));
    assert_eq!(records_per_second(0, 5), Some(0));
    assert_eq!(records_per_second(5, 60), Some(0));
}
