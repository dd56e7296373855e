use binaryx_graph::json::JsonField;
use binaryx_graph::json::JsonValue;
use binaryx_graph::nodes::BinaryFormat;
use binaryx_graph::nodes::Function;
use binaryx_graph::nodes::FunctionType;
use binaryx_graph::nodes::Library;
use binaryx_graph::nodes::StringNode;
use binaryx_graph::session::classify_format;
use binaryx_graph::session::dedup_strings;
use binaryx_graph::session::finalize_import;
use binaryx_graph::session::parse_binary_info;
use binaryx_graph::session::parse_exports;
use binaryx_graph::session::parse_functions;
use binaryx_graph::session::parse_imports;
use binaryx_graph::session::parse_strings;
use binaryx_graph::session::plan_import;
use binaryx_graph::session::resolve_calls;
use binaryx_graph::session::validate_data;
use binaryx_graph::strmap::StrMap;

fn field(key: &str, value: JsonValue) -> JsonField {
    JsonField { key: key.to_string(), value }
}

fn txt(s: &str) -> JsonValue {
    JsonValue::Text(s.to_string())
}

fn obj(fields: Vec<JsonField>) -> JsonValue {
    JsonValue::Obj(fields)
}

fn binary_info(hash: &str, name: &str, file_type: &str) -> JsonValue {
    obj(vec![
        field("name", txt(name)),
        field(
            "hashes",
            obj(vec![field("sha256", txt(hash))]),
        ),
        field(
            "file_type",
            obj(vec![field("type", txt(file_type)), field("architecture", txt("x86_64"))]),
        ),
    ])
}

fn call_record(from: &str, to: &str) -> JsonValue {
    obj(vec![field("from_address", txt(from)), field("to_address", txt(to))])
}

#[test]
fn format_inference() {
    assert_eq!(classify_format("PE32+"), BinaryFormat::PE);
    assert_eq!(classify_format("ELF64"), BinaryFormat::Elf);
    assert_eq!(classify_format("Mach-O"), BinaryFormat::MachO);
    assert_eq!(classify_format("mach-o 64-bit"), BinaryFormat::MachO);
    assert_eq!(classify_format("elf 32-bit"), BinaryFormat::Elf);
    assert_eq!(classify_format("something else"), BinaryFormat::PE);
}

#[test]
fn binary_info_parses_with_defaults() {
    let info = binary_info("abc123", "a.exe", "PE32+");
    let b = parse_binary_info(&info).unwrap();
    assert_eq!(b.hash, "abc123");
    assert_eq!(b.filename, "a.exe");
    assert_eq!(b.file_path, "");
    assert_eq!(b.file_size, 0);
    assert_eq!(b.format, BinaryFormat::PE);
    assert_eq!(b.arch, "x86_64");
}

#[test]
fn binary_info_missing_fields() {
    let no_hashes = obj(vec![field("name", txt("a.exe"))]);
    assert_eq!(parse_binary_info(&no_hashes).unwrap_err(), "Missing hashes");
    let no_sha = obj(vec![
        field("name", txt("a.exe")),
        field("hashes", obj(vec![field("md5", txt("zz"))])),
    ]);
    assert_eq!(parse_binary_info(&no_sha).unwrap_err(), "Missing sha256 hash");
    let no_name = obj(vec![field("hashes", obj(vec![field("sha256", txt("abc"))]))]);
    assert_eq!(parse_binary_info(&no_name).unwrap_err(), "Missing filename");
}

#[test]
fn function_key_derivation_is_deterministic() {
    let f1 = Function::create_internal("abc123", 0x401000, "main", false);
    let f2 = Function::create_internal("abc123", 0x401000, "main_renamed", true);
    assert_eq!(f1.uid, "abc123:0x401000");
    assert_eq!(f1.uid, f2.uid);
    assert_eq!(f1.ftype, FunctionType::Internal);
    assert_eq!(f2.ftype, FunctionType::Export);
    assert_eq!(f1.address.as_deref(), Some("0x401000"));
}

#[test]
fn import_key_forms() {
    let global = Function::create_import("Kernel32.DLL", "CreateFileW");
    assert_eq!(global.uid, "imp:kernel32.dll:CreateFileW");
    assert_eq!(global.address, None);
    let scoped = Function::create_import_with_address("abc", "kernel32.dll", "CreateFileW", "0x2000");
    assert_eq!(scoped.uid, "imp:abc:kernel32.dll:CreateFileW");
    assert_eq!(scoped.address.as_deref(), Some("0x2000"));
}

#[test]
fn string_key_ignores_trailing_nul() {
    let a = StringNode::new("abc", "hello\0\0".to_string(), None);
    let b = StringNode::new("abc", "hello".to_string(), None);
    assert_eq!(a.uid, b.uid);
    assert_eq!(a.value, "hello");
    let c = StringNode::new("abc", "other".to_string(), None);
    assert_ne!(a.uid, c.uid);
    let d = StringNode::new("def", "hello".to_string(), None);
    assert_ne!(a.uid, d.uid);
    assert!(a.uid.starts_with("str:abc:"));
}

#[test]
fn string_dedup_collapses_by_key_last_wins() {
    let records = vec![
        StringNode::new("h", "alpha".to_string(), Some("0x1".to_string())),
        StringNode::new("h", "beta".to_string(), Some("0x2".to_string())),
        StringNode::new("h", "alpha".to_string(), Some("0x3".to_string())),
        StringNode::new("h", "alpha\0".to_string(), Some("0x4".to_string())),
        StringNode::new("h", "beta".to_string(), Some("0x5".to_string())),
    ];
    let unique = dedup_strings(records);
    assert_eq!(unique.len(), 2);
    for node in &unique {
        if node.value == "alpha" {
            assert_eq!(node.address.as_deref(), Some("0x4"));
        } else {
            assert_eq!(node.value, "beta");
            assert_eq!(node.address.as_deref(), Some("0x5"));
        }
    }
}

#[test]
fn import_batch_with_five_strings_two_values() {
    let strings = JsonValue::Arr(vec![
        txt("alpha"),
        txt("beta"),
        txt("alpha"),
        obj(vec![field("value", txt("alpha\0"))]),
        obj(vec![field("value", txt("beta"))]),
    ]);
    let data = obj(vec![
        field("binary_info", binary_info("abc123", "a.exe", "PE32+")),
        field("strings", strings),
    ]);
    let batch = plan_import(&data);
    assert!(!batch.fatal);
    assert_eq!(batch.statistics.strings, 2);
    assert_eq!(batch.strings.len(), 2);
    assert!(batch.errors.is_empty());
}

#[test]
fn unresolved_call_edges_are_skipped_not_errors() {
    let functions = JsonValue::Arr(vec![obj(vec![
        field("name", txt("main")),
        field("address", txt("0x1000")),
    ])]);
    let calls = JsonValue::Arr(vec![
        call_record("0x1000", "0x1000"),
        call_record("0x1000", "0x9999"),
        call_record("0xdead", "0xbeef"),
    ]);
    let data = obj(vec![
        field("binary_info", binary_info("abc123", "a.exe", "PE32+")),
        field("functions", functions),
        field("calls", calls),
    ]);
    let batch = plan_import(&data);
    assert!(!batch.fatal);
    assert!(batch.errors.is_empty());
    assert_eq!(batch.statistics.calls_relationships, 1);
    assert_eq!(batch.skipped_calls, 2);
}

#[test]
fn calls_resolve_across_address_encodings() {
    // The function's address arrives in decimal; the call names it in hex
    // with an uppercase prefix. Both must meet in the address map.
    let functions = JsonValue::Arr(vec![obj(vec![
        field("name", txt("main")),
        field("address", txt("4096")),
    ])]);
    let calls = JsonValue::Arr(vec![call_record("0X1000", "4096")]);
    let data = obj(vec![
        field("binary_info", binary_info("abc123", "a.exe", "PE32+")),
        field("functions", functions),
        field("calls", calls),
    ]);
    let batch = plan_import(&data);
    assert_eq!(batch.skipped_calls, 0);
    assert_eq!(batch.calls.len(), 1);
    assert_eq!(batch.calls[0].from_uid, "abc123:0x1000");
    assert_eq!(batch.calls[0].to_uid, "abc123:0x1000");
}

#[test]
fn scenario_self_call() {
    let functions = JsonValue::Arr(vec![obj(vec![
        field("name", txt("main")),
        field("address", txt("0x1000")),
    ])]);
    let calls = JsonValue::Arr(vec![call_record("0x1000", "0x1000")]);
    let data = obj(vec![
        field("binary_info", binary_info("abc123", "a.exe", "PE32+")),
        field("functions", functions),
        field("calls", calls),
    ]);
    let batch = plan_import(&data);
    assert!(!batch.fatal);
    assert_eq!(batch.statistics.functions, 1);
    assert_eq!(batch.statistics.calls_relationships, 1);
    let result = finalize_import(batch.statistics, batch.errors);
    assert!(result.success);
    assert_eq!(result.statistics.functions, 1);
    assert_eq!(result.statistics.calls_relationships, 1);
    assert_eq!(result.statistics.total_nodes, 2);

    // The persisted self-edge comes back as one direct self-loop row.
    let direct = vec!["main".to_string()];
    let indirect: Vec<(String, usize)> = Vec::new();
    let recursive = binaryx_graph::analyzer::build_recursive_calls(&direct, &indirect);
    assert_eq!(recursive.len(), 1);
    assert_eq!(recursive[0].function_name, "main");
    assert_eq!(
        recursive[0].call_type,
        binaryx_graph::analyzer::RecursiveCallType::Direct
    );
    assert_eq!(recursive[0].depth, 1);
}

#[test]
fn scenario_missing_hashes_is_fatal() {
    let info = obj(vec![
        field("name", txt("a.exe")),
        field(
            "file_type",
            obj(vec![field("type", txt("PE32+"))]),
        ),
    ]);
    let data = obj(vec![field("binary_info", info)]);
    let batch = plan_import(&data);
    assert!(batch.fatal);
    assert_eq!(batch.statistics.binaries, 0);
    assert_eq!(batch.errors.len(), 1);
    assert!(batch.errors[0].contains("Missing hashes"));
    let result = finalize_import(batch.statistics, batch.errors);
    assert!(!result.success);
    assert_eq!(result.statistics.binaries, 0);
}

#[test]
fn scenario_library_case_collapses() {
    let imports = JsonValue::Arr(vec![
        obj(vec![
            field("name", txt("CreateFileW")),
            field("library", txt("Kernel32.dll")),
            field("address", txt("0x2000")),
        ]),
        obj(vec![
            field("name", txt("ReadFile")),
            field("library", txt("KERNEL32.DLL")),
            field("address", txt("0x2008")),
        ]),
    ]);
    let data = obj(vec![
        field("binary_info", binary_info("abc123", "a.exe", "PE32+")),
        field("imports", imports),
    ]);
    let batch = plan_import(&data);
    assert!(!batch.fatal);
    assert_eq!(batch.libraries.len(), 1);
    assert_eq!(batch.libraries[0].name, "kernel32.dll");
    assert_eq!(batch.statistics.libraries, 1);
    assert_eq!(batch.import_functions.len(), 2);
    assert_eq!(batch.import_functions[0].function.uid, "imp:abc123:kernel32.dll:CreateFileW");
}

#[test]
fn library_lowercasing() {
    let lib = Library::create("KERNEL32.DLL");
    assert_eq!(lib.name, "kernel32.dll");
}

#[test]
fn section_errors_are_recorded_not_fatal() {
    let data = obj(vec![
        field("binary_info", binary_info("abc123", "a.exe", "PE32+")),
        field("functions", txt("oops")),
        field("strings", JsonValue::Num(Some(3))),
        field("imports", JsonValue::Arr(vec![obj(vec![field("name", txt("f"))])])),
        field("exports", JsonValue::Arr(vec![obj(vec![field("name", txt("g"))])])),
        field("calls", JsonValue::Arr(vec![obj(vec![field("to_address", txt("0x1"))])])),
    ]);
    let batch = plan_import(&data);
    assert!(!batch.fatal);
    let msgs = batch.errors.clone();
    assert_eq!(msgs.len(), 5);
    assert_eq!(msgs[0], "Failed to parse functions: functions must be an array");
    assert_eq!(msgs[1], "Failed to parse strings: strings must be an array");
    assert_eq!(msgs[2], "Failed to parse imports: Import missing library");
    assert_eq!(msgs[3], "Failed to parse exports: Export missing address");
    assert_eq!(msgs[4], "Failed to import calls: Call missing from_address");
    let result = finalize_import(batch.statistics, batch.errors);
    assert!(!result.success);
}

#[test]
fn invalid_export_address_skips_record() {
    let exports = JsonValue::Arr(vec![
        obj(vec![field("name", txt("good")), field("address", txt("0x1234"))]),
        obj(vec![field("name", txt("bad")), field("address", txt("zzz"))]),
    ]);
    let data = obj(vec![
        field("binary_info", binary_info("abc123", "a.exe", "PE32+")),
        field("exports", exports),
    ]);
    let batch = plan_import(&data);
    assert!(!batch.fatal);
    assert_eq!(batch.export_functions.len(), 1);
    assert_eq!(batch.export_functions[0].uid, "abc123:0x1234");
    assert_eq!(batch.export_functions[0].ftype, FunctionType::Export);
    assert_eq!(batch.errors.len(), 1);
    assert_eq!(batch.errors[0], "Invalid export address: zzz");
}

#[test]
fn parser_edge_cases() {
    let fns = JsonValue::Arr(vec![obj(vec![])]);
    let parsed = parse_functions(&fns, "h").unwrap();
    assert_eq!(parsed.len(), 1);
    assert_eq!(parsed[0].name, "unknown");
    assert_eq!(parsed[0].uid, "h:0x0");
    assert_eq!(parsed[0].size, None);

    let strings = JsonValue::Arr(vec![JsonValue::Num(Some(1)), txt("keep")]);
    let nodes = parse_strings(&strings, "h").unwrap();
    assert_eq!(nodes.len(), 1);
    assert_eq!(nodes[0].value, "keep");

    let exports = JsonValue::Arr(vec![obj(vec![field("address", txt("0x1"))])]);
    assert_eq!(parse_exports(&exports).unwrap_err(), "Export missing name");

    let imports = JsonValue::Arr(vec![obj(vec![
        field("name", txt("f")),
        field("library", txt("L")),
    ])]);
    let (libs, imps) = parse_imports(&imports).unwrap();
    assert_eq!(libs.len(), 1);
    assert_eq!(imps[0].address, "0x0");
}

#[test]
fn resolve_calls_against_map() {
    let mut map: StrMap<String> = StrMap::new();
    map.insert("0x10".to_string(), "h:0x10".to_string());
    let calls = JsonValue::Arr(vec![
        obj(vec![
            field("from_address", txt("0x10")),
            field("to_address", txt("16")),
            field("offset", txt("0x4")),
            field("type", txt("TAIL")),
        ]),
        call_record("0x10", "0x99"),
    ]);
    let (resolved, skipped) = resolve_calls(&calls, &map).unwrap();
    assert_eq!(resolved.len(), 1);
    assert_eq!(skipped, 1);
    assert_eq!(resolved[0].from_uid, "h:0x10");
    assert_eq!(resolved[0].to_uid, "h:0x10");
    assert_eq!(resolved[0].calls.offset, "0x4");
    assert_eq!(
        resolved[0].calls.call_type,
        binaryx_graph::relationships::CallType::Tail
    );
}

#[test]
fn validation_reports_structure() {
    let ok = obj(vec![
        field(
            "binary_info",
            obj(vec![
                field("name", txt("a")),
                field("file_path", txt("/a")),
                field("file_size", JsonValue::Num(Some(10))),
                field("file_type", obj(vec![field("type", txt("PE"))])),
                field("hashes", obj(vec![field("sha256", txt("x"))])),
            ]),
        ),
        field("functions", JsonValue::Arr(vec![])),
    ]);
    let r = validate_data(&ok);
    assert!(r.valid);
    assert!(r.errors.is_empty());

    let bad = obj(vec![field("functions", txt("nope"))]);
    let r2 = validate_data(&bad);
    assert!(!r2.valid);
    assert_eq!(r2.errors[0], "binary_info is required");
    assert_eq!(r2.errors[1], "functions must be an array");

    let partial = obj(vec![field("binary_info", obj(vec![field("name", txt("a"))]))]);
    let r3 = validate_data(&partial);
    assert!(!r3.valid);
    assert_eq!(r3.errors.len(), 4);
    assert_eq!(r3.errors[0], "binary_info missing required field: file_path");
}
