use darwinx::export::{export_file, extract_pair, pair_from_file_name};
use darwinx::timeframe::TimeFrame;

#[test]
fn pair_from_data_file_at_top_level() {
    assert_eq!(extract_pair(Some(r#"{"data_file": "data/btcusdt_1h.csv"}"#)), "BTCUSDT");
    assert_eq!(extract_pair(Some(r#"{"data_file": "/abs/path/ethUsdt_5m_2024.parquet"}"#)), "ETHUSDT");
}

#[test]
fn pair_from_data_file_in_config() {
    assert_eq!(extract_pair(Some(r#"{"config": {"data_file": "solusdt_15m.csv"}}"#)), "SOLUSDT");
    // A top-level entry that is not a string falls back to the config entry.
    assert_eq!(extract_pair(Some(r#"{"data_file": 3, "config": {"data_file": "x/adausdt.csv"}}"#)), "ADAUSDT.CSV");
}

#[test]
fn pair_defaults() {
    assert_eq!(extract_pair(None), "PAIR");
    assert_eq!(extract_pair(Some("not json")), "PAIR");
    assert_eq!(extract_pair(Some(r#"{"other": 1}"#)), "PAIR");
    assert_eq!(extract_pair(Some(r#"{"data_file": "data/.."}"#)), "PAIR");
}

#[test]
fn pair_of_file_names() {
    assert_eq!(pair_from_file_name("btcusdt_1h.csv"), "BTCUSDT");
    assert_eq!(pair_from_file_name("_leading"), "");
    assert_eq!(pair_from_file_name("noseparator"), "NOSEPARATOR");
    assert_eq!(pair_from_file_name("ñandú_x"), "ñANDú");
    assert_eq!(pair_from_file_name(""), "");
}

#[test]
fn export_file_names_and_embeds_the_strategy() {
    let (file, content) = export_file(
        "My Strat/1",
        "db/strategies.db",
        TimeFrame::H1,
        Some(r#"{"data_file": "data/btcusdt_1h.csv"}"#),
        r#"{"a":"x","b":[1]}"#,
    )
    .unwrap();
    assert_eq!(file, "strategy_My_Strat_1_1h_BTCUSDT.rs");
    let expected = "// Autogenerado desde SQLite (nombre: My Strat/1)\n// Pair: BTCUSDT\n// Timeframe: 1h\n// Ruta DB: db/strategies.db\nuse darwinx_generator::ast::nodes::StrategyAST;\nuse serde_json;\n\npub const STRATEGY_NAME: &str = \"My Strat/1\";\npub const STRATEGY_JSON: &str = r#\"{\n  \\\"a\\\": \\\"x\\\",\n  \\\"b\\\": [\n    1\n  ]\n}\"#;\n\npub fn load_strategy_ast() -> StrategyAST {\nserde_json::from_str(STRATEGY_JSON).expect(\"AST válido\")\n}\n";
    assert_eq!(content, expected);
}

#[test]
fn export_file_refuses_text_that_is_not_json() {
    assert_eq!(export_file("s", "db", TimeFrame::D1, None, "{not json"), None);
    let (file, _) = export_file("s", "db", TimeFrame::D1, None, "[]").unwrap();
    assert_eq!(file, "strategy_s_1d_PAIR.rs");
}
