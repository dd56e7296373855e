use binaryx_graph::analyzer::assemble_call_context;
use binaryx_graph::analyzer::assemble_enhanced_call_graph;
use binaryx_graph::analyzer::build_call_paths;
use binaryx_graph::analyzer::build_call_sequences;
use binaryx_graph::analyzer::build_caller_sequences;
use binaryx_graph::analyzer::build_recursive_calls;
use binaryx_graph::analyzer::build_upward_chains;
use binaryx_graph::analyzer::CallerRow;
use binaryx_graph::analyzer::PathRow;
use binaryx_graph::analyzer::RecursiveCallType;
use binaryx_graph::analyzer::SequenceRow;
use binaryx_graph::config::Config;
use binaryx_graph::relationships::BelongsTo;
use binaryx_graph::relationships::CallType;
use binaryx_graph::relationships::Contains;
use binaryx_graph::relationships::HasString;
use binaryx_graph::relationships::Imports;
use binaryx_graph::relationships::ResolvesTo;
use binaryx_graph::stats::DatabaseStats;
use binaryx_graph::util::extract_binary_from_uid;
use binaryx_graph::util::matches_pattern;

fn row(names: &[&str], addresses: &[&str], offsets: &[&str]) -> PathRow {
    PathRow {
        node_names: names.iter().map(|s| s.to_string()).collect(),
        node_addresses: addresses.iter().map(|s| s.to_string()).collect(),
        call_offsets: offsets.iter().map(|s| s.to_string()).collect(),
    }
}

#[test]
fn call_paths_from_rows() {
    let rows = vec![
        row(&[], &[], &[]),
        row(&["main", "helper"], &["0x1000", "0x2000"], &["0x1010"]),
    ];
    let paths = build_call_paths("main", &rows);
    assert_eq!(paths.len(), 1);
    let p = &paths[0];
    assert_eq!(p.id, "path_2");
    assert_eq!(p.length, 1);
    assert_eq!(p.nodes.len(), 2);
    assert_eq!(p.nodes[0].id, "main_0");
    assert_eq!(p.nodes[0].name, "main");
    assert_eq!(p.nodes[0].address.as_deref(), Some("0x1000"));
    assert_eq!(p.nodes[0].call_site, None);
    assert_eq!(p.nodes[1].id, "helper_1");
    assert_eq!(p.nodes[1].depth, 1);
    assert_eq!(p.nodes[1].call_site.as_deref(), Some("0x1010"));
    assert_eq!(p.nodes[1].call_type, "Direct");
    assert_eq!(p.entry_function().unwrap().name, "main");
}

#[test]
fn call_paths_missing_address_renders_na() {
    let rows = vec![row(&["a", "b"], &["0x1"], &[])];
    let paths = build_call_paths("a", &rows);
    assert_eq!(paths[0].nodes[1].address.as_deref(), Some("N/A"));
    assert_eq!(paths[0].nodes[1].call_site, None);
}

#[test]
fn call_paths_fallback_single_node() {
    let rows: Vec<PathRow> = Vec::new();
    let paths = build_call_paths("lonely", &rows);
    assert_eq!(paths.len(), 1);
    assert_eq!(paths[0].id, "single_path");
    assert_eq!(paths[0].length, 0);
    assert_eq!(paths[0].nodes.len(), 1);
    assert_eq!(paths[0].nodes[0].id, "single_node");
    assert_eq!(paths[0].nodes[0].name, "lonely");
    assert_eq!(paths[0].nodes[0].address.as_deref(), Some("0x1000"));
    assert_eq!(paths[0].nodes[0].call_type, "Entry");
}

#[test]
fn upward_chains_from_rows() {
    let rows = vec![row(&["caller", "target"], &["0x5", "0x6"], &["0x50"])];
    let chains = build_upward_chains("target", &rows);
    assert_eq!(chains.len(), 1);
    assert_eq!(chains[0].id, "upward_chain_1");
    assert_eq!(chains[0].nodes[0].call_site.as_deref(), Some("0x50"));
    assert_eq!(chains[0].nodes[1].call_site, None);
    assert_eq!(chains[0].nodes[0].call_type, "Upward");
    assert_eq!(chains[0].target_function().unwrap().name, "caller");

    let empty: Vec<PathRow> = Vec::new();
    let fallback = build_upward_chains("target", &empty);
    assert_eq!(fallback.len(), 1);
    assert_eq!(fallback[0].id, "single_upward_chain");
    assert_eq!(fallback[0].nodes[0].call_type, "Root");
}

#[test]
fn call_sequences_are_numbered_in_order() {
    let rows = vec![
        SequenceRow {
            caller: "main".to_string(),
            callee: "first".to_string(),
            call_site: "0x10".to_string(),
        },
        SequenceRow {
            caller: "main".to_string(),
            callee: "second".to_string(),
            call_site: "0x20".to_string(),
        },
    ];
    let seqs = build_call_sequences(&rows);
    assert_eq!(seqs.len(), 2);
    assert_eq!(seqs[0].id, "seq_1");
    assert_eq!(seqs[0].order, 1);
    assert_eq!(seqs[0].callee, "first");
    assert_eq!(seqs[1].id, "seq_2");
    assert_eq!(seqs[1].order, 2);
}

#[test]
fn caller_sequences_carry_both_endpoints() {
    let rows = vec![CallerRow {
        caller_name: "a".to_string(),
        caller_address: "0x1".to_string(),
        callee_name: "b".to_string(),
        callee_address: "0x2".to_string(),
        call_site: "0x11".to_string(),
    }];
    let seqs = build_caller_sequences(&rows);
    assert_eq!(seqs[0].id, "caller_seq_1");
    assert_eq!(seqs[0].caller_name, "a");
    assert_eq!(seqs[0].callee_address, "0x2");
    assert_eq!(seqs[0].order, 1);
}

#[test]
fn recursion_reports_both_kinds() {
    let direct = vec!["f".to_string()];
    let indirect = vec![("f".to_string(), 3usize), ("f".to_string(), 5usize)];
    let r = build_recursive_calls(&direct, &indirect);
    assert_eq!(r.len(), 3);
    assert_eq!(r[0].call_type, RecursiveCallType::Direct);
    assert_eq!(r[0].depth, 1);
    assert_eq!(r[1].call_type, RecursiveCallType::Indirect);
    assert_eq!(r[1].depth, 3);
    assert_eq!(r[2].depth, 5);
}

#[test]
fn context_insights_text() {
    let chains = vec![];
    let paths = vec![];
    let callers = vec![];
    let ctx = assemble_call_context("main".to_string(), chains, paths, callers);
    assert_eq!(ctx.context_insights.len(), 1);
    assert_eq!(
        ctx.context_insights[0],
        "Function 'main' has 0 upward call chains and 0 downward call paths"
    );

    let rows = vec![CallerRow {
        caller_name: "a".to_string(),
        caller_address: "0x1".to_string(),
        callee_name: "main".to_string(),
        callee_address: "0x2".to_string(),
        call_site: "0x11".to_string(),
    }];
    let callers2 = build_caller_sequences(&rows);
    let ctx2 = assemble_call_context("main".to_string(), vec![], vec![], callers2);
    assert_eq!(ctx2.context_insights.len(), 2);
    assert_eq!(ctx2.context_insights[1], "Function is called by 1 different callers");
}

#[test]
fn enhanced_graph_collects_frequencies() {
    let freqs = vec![("helper".to_string(), 3i64), ("other".to_string(), 1i64)];
    let g = assemble_enhanced_call_graph(vec![], vec![], freqs);
    assert_eq!(g.call_frequencies.get("helper"), Some(&3));
    assert_eq!(g.call_frequencies.get("other"), Some(&1));
    assert_eq!(g.call_frequencies.get("absent"), None);
}

#[test]
fn call_type_tokens() {
    assert_eq!(CallType::from_token("direct"), CallType::Direct);
    assert_eq!(CallType::from_token("INDIRECT"), CallType::Indirect);
    assert_eq!(CallType::from_token("Virtual"), CallType::Virtual);
    assert_eq!(CallType::from_token("tail"), CallType::Tail);
    assert_eq!(CallType::from_token("banana"), CallType::Direct);
    assert_eq!(CallType::from_token(""), CallType::Direct);
}

#[test]
fn relationship_tags() {
    assert_eq!(Contains::new().rel_type, "CONTAINS");
    assert_eq!(Imports::new().rel_type, "IMPORTS");
    assert_eq!(ResolvesTo::new().rel_type, "RESOLVES_TO");
    assert_eq!(HasString::new().rel_type, "HAS_STRING");
    assert_eq!(BelongsTo::new().rel_type, "BELONGS_TO");
    assert_eq!(Contains::default().rel_type, "CONTAINS");
}

#[test]
fn pattern_matching_rules() {
    assert!(matches_pattern("anything.bin", "*"));
    assert!(matches_pattern("anything.bin", "*.*"));
    assert!(matches_pattern("report.JSON", "*.json"));
    assert!(!matches_pattern("report.txt", "*.json"));
    assert!(matches_pattern("noext", "*.noext"));
    assert!(matches_pattern("prefix_rest", "prefix*"));
    assert!(!matches_pattern("wrong_rest", "prefix*"));
    assert!(matches_pattern("some_suffix", "*suffix"));
    assert!(!matches_pattern("some_other", "*suffix"));
    assert!(matches_pattern("exact.json", "exact.json"));
    assert!(!matches_pattern("exact.json", "other.json"));
}

#[test]
fn uid_display_prefix() {
    assert_eq!(extract_binary_from_uid("abc:0x1000"), "abc");
    assert_eq!(extract_binary_from_uid("abcdefghijklmnopqrstuv:0x1"), "abcdefghijklmno");
    assert_eq!(extract_binary_from_uid("nocolon"), "nocolon");
    assert_eq!(extract_binary_from_uid("averyveryverylongnamewithnocolon"), "averyveryverylo");
}

#[test]
fn config_rules() {
    let good = Config::default();
    assert!(good.validate().is_ok());
    assert_eq!(good.neo4j_uri, "bolt://localhost:7687");
    assert_eq!(good.batch_size, 1000);

    let mut no_uri = Config::default();
    no_uri.neo4j_uri = String::new();
    assert_eq!(no_uri.validate().unwrap_err(), "Neo4j URI cannot be empty");

    let mut no_user = Config::default();
    no_user.neo4j_user = String::new();
    assert_eq!(no_user.validate().unwrap_err(), "Neo4j user cannot be empty");

    let mut no_pass = Config::default();
    no_pass.neo4j_password = String::new();
    assert_eq!(no_pass.validate().unwrap_err(), "Neo4j password cannot be empty");

    let mut zero_batch = Config::default();
    zero_batch.batch_size = 0;
    assert_eq!(zero_batch.validate().unwrap_err(), "Batch size must be greater than 0");
}

#[test]
fn database_stats_start_empty() {
    let s = DatabaseStats::new();
    assert_eq!(s.node_count, 0);
    assert_eq!(s.relationship_count, 0);
    assert_eq!(s.label_counts.get("Binary"), None);
}
