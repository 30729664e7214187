use kodiak::execution_config::ExecutionConfig;
use kodiak::input_reader::{InputReader, LocalInputReader};
use kodiak::log_level::LogLevel;
use kodiak::metric_config_builder::MetricConfigBuilder;
use kodiak::mpc_config_builder::MPCConfigBuilder;
use kodiak::mpc_game::MPCGame;
use kodiak::mpc_role::MPCRole;
use kodiak::mpc_view_builder::MPCViewBuilder;
use kodiak::network_config::NetworkConfig;
use kodiak::network_config_builder::NetworkConfigBuilder;
use kodiak::operation_config_builder::OperationConfigBuilder;
use kodiak::sample_columns::TestEnum;

#[test]
fn network_config_builder_defaults() {
    let config = NetworkConfigBuilder::new().build();
    assert!(matches!(config.role(), MPCRole::Publisher));
    assert_eq!(config.host(), "localhost");
    assert_eq!(config.port(), 8080);
}

#[test]
fn network_config_builder_settings() {
    let mut builder = NetworkConfigBuilder::new();
    builder.with_role(MPCRole::Partner);
    builder.with_host("example.invalid".to_string());
    builder.with_port(9001);
    let config = builder.build();
    assert!(matches!(config.role(), MPCRole::Partner));
    assert_eq!(config.host(), "example.invalid");
    assert_eq!(config.port(), 9001);
}

#[test]
fn operation_config_builder_settings() {
    let defaults = OperationConfigBuilder::new().build();
    assert_eq!(defaults.concurrency(), 1);
    assert_eq!(defaults.log_level(), LogLevel::Info);
    assert!(!defaults.debug());

    let mut builder = OperationConfigBuilder::new();
    builder.with_concurrency(8);
    builder.with_log_level(LogLevel::Trace);
    builder.with_debug(true);
    let config = builder.build();
    assert_eq!(config.concurrency(), 8);
    assert_eq!(config.log_level(), LogLevel::Trace);
    assert!(config.debug());
}

#[test]
fn mpc_config_builder_settings() {
    let defaults = MPCConfigBuilder::new().build();
    assert!(matches!(defaults.role(), MPCRole::Publisher));
    assert_eq!(defaults.base_port(), 8080);
    assert_eq!(defaults.concurrency(), 1);

    let mut builder = MPCConfigBuilder::new();
    builder.with_role(MPCRole::Partner);
    builder.with_base_port(5000);
    builder.with_concurrency(4);
    let config = builder.build();
    assert!(matches!(config.role(), MPCRole::Partner));
    assert_eq!(config.base_port(), 5000);
    assert_eq!(config.concurrency(), 4);
}

#[test]
fn game_holds_configuration() {
    let network = NetworkConfig::new(MPCRole::Publisher, "localhost".to_string(), 8080);
    let operation = OperationConfigBuilder::new().build();
    let execution = ExecutionConfig::new(network, operation);
    let mut builder = MPCViewBuilder::new();
    builder.with_input_column(MPCRole::Publisher, TestEnum::Variant1);
    let view = builder.build();
    let mut game = MPCGame::new(execution, view);
    game.play();
    game.reveal_results();
}

struct NullReader;

impl InputReader for NullReader {
    fn next_line(&mut self) -> String {
        String::new()
    }

    fn read_all(&self) -> Vec<String> {
        Vec::new()
    }
}

#[test]
fn metric_config_builder_requires_reader() {
    let mut builder: MetricConfigBuilder<TestEnum, NullReader> = MetricConfigBuilder::new();
    builder.with_input_reader(NullReader);
    let mut view_builder = MPCViewBuilder::new();
    view_builder.with_input_column(MPCRole::Publisher, TestEnum::Variant1);
    builder.with_view(view_builder.build());
    let _config = builder.build();
}

#[test]
fn local_input_reader_keeps_path() {
    let reader = LocalInputReader::new("data/input.csv");
    assert_eq!(reader.filepath(), "data/input.csv");
}
