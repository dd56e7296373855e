//! The import session: the construction pipeline that turns one input
//! payload into entities, an address map, and resolved call edges.
//!
//! Phases run strictly in order — binary, functions, strings, imports,
//! exports, calls — because the calls phase resolves endpoints through the
//! address map the earlier phases build. A missing or unparseable binary
//! record is fatal for the whole batch; everything else is recorded as a
//! non-fatal error and the batch continues.

use vstd::prelude::*;
use vstd::string::StringExecFns;

use crate::addr::parse_address;
use crate::addr::normalize_address;
use crate::addr::spec_format_address;
use crate::addr::spec_normalize_address;
use crate::addr::spec_parse_address;
use crate::json::spec_get;
use crate::json::spec_get_str;
use crate::json::spec_get_u64;
use crate::json::JsonValue;
use crate::nodes::spec_internal_uid;
use crate::nodes::Binary;
use crate::nodes::BinaryFormat;
use crate::nodes::Export;
use crate::nodes::Function;
use crate::nodes::FunctionType;
use crate::nodes::Import;
use crate::text::contains_ci;
use crate::text::contains_ci_str;

verus! {

/// Per-category counts of what one import batch created.
#[derive(Debug, Clone, Copy, PartialEq, Eq, Structural)]
pub struct ImportStatistics {
    /// Binaries created (0 or 1 per batch).
    pub binaries: u64,
    /// Functions created by the functions phase.
    pub functions: u64,
    /// Distinct string nodes created.
    pub strings: u64,
    /// Distinct libraries created.
    pub libraries: u64,
    /// Call edges resolved and created.
    pub calls_relationships: u64,
    /// Sum of the node counts above.
    pub total_nodes: u64,
}

/// The outcome of one import batch: counts, the ordered non-fatal errors,
/// and whether the batch was fully clean.
#[derive(Debug, Clone)]
pub struct ImportResult {
    /// True exactly when no error was recorded.
    pub success: bool,
    /// Per-category counts.
    pub statistics: ImportStatistics,
    /// Every non-fatal error, in the order it arose.
    pub errors: Vec<String>,
}

/// The outcome of structural validation of an input payload.
#[derive(Debug, Clone)]
pub struct ValidationResult {
    /// True exactly when no structural error was found.
    pub valid: bool,
    /// Every structural error found.
    pub errors: Vec<String>,
    /// Non-fatal observations; none are currently produced.
    pub warnings: Vec<String>,
}

/// A default applied to an optional string.
pub open spec fn or_str(v: Option<Seq<char>>, d: Seq<char>) -> Seq<char> {
    match v {
        Some(s) => s,
        None => d,
    }
}

/// A default applied to an optional number.
pub open spec fn or_u64(v: Option<u64>, d: u64) -> u64 {
    match v {
        Some(n) => n,
        None => d,
    }
}

/// The sha256 field of the binary record: `hashes.sha256`, with
/// `hashes.SHA256` accepted as an alternative spelling.
pub open spec fn spec_sha256_field(info: JsonValue) -> Option<Seq<char>> {
    match spec_get(info, "hashes"@) {
        Some(h) => match spec_get_str(h, "sha256"@) {
            Some(s) => Some(s),
            None => spec_get_str(h, "SHA256"@),
        },
        None => None,
    }
}

/// The filename of the binary record: `name`, or `filename` as fallback.
pub open spec fn spec_filename_field(info: JsonValue) -> Option<Seq<char>> {
    match spec_get_str(info, "name"@) {
        Some(s) => Some(s),
        None => spec_get_str(info, "filename"@),
    }
}

/// The `file_type.type` string of the binary record.
pub open spec fn spec_type_field(info: JsonValue) -> Option<Seq<char>> {
    match spec_get(info, "file_type"@) {
        Some(ft) => spec_get_str(ft, "type"@),
        None => None,
    }
}

/// The `file_type.architecture` string of the binary record.
pub open spec fn spec_arch_field(info: JsonValue) -> Option<Seq<char>> {
    match spec_get(info, "file_type"@) {
        Some(ft) => spec_get_str(ft, "architecture"@),
        None => None,
    }
}

/// Format inference: case-insensitive substring match against PE, ELF and
/// MACH, in that order; anything unrecognized counts as PE, a deliberate
/// best-effort default.
pub open spec fn spec_format_of(t: Seq<char>) -> BinaryFormat {
    if contains_ci(t, seq!['P', 'E']) {
        BinaryFormat::PE
    } else if contains_ci(t, seq!['E', 'L', 'F']) {
        BinaryFormat::Elf
    } else if contains_ci(t, seq!['M', 'A', 'C', 'H']) {
        BinaryFormat::MachO
    } else {
        BinaryFormat::PE
    }
}

/// Classifies a file-type string into a binary format.
pub fn classify_format(t: &str) -> (f: BinaryFormat)
    ensures
        f == spec_format_of(t@),
{
    proof {
        reveal_strlit("PE");
        reveal_strlit("ELF");
        reveal_strlit("MACH");
        assert("PE"@ =~= seq!['P', 'E']);
        assert("ELF"@ =~= seq!['E', 'L', 'F']);
        assert("MACH"@ =~= seq!['M', 'A', 'C', 'H']);
    }
    if contains_ci_str(t, "PE") {
        BinaryFormat::PE
    } else if contains_ci_str(t, "ELF") {
        BinaryFormat::Elf
    } else if contains_ci_str(t, "MACH") {
        BinaryFormat::MachO
    } else {
        BinaryFormat::PE
    }
}

/// Why a binary record cannot be parsed, if it cannot: the first missing
/// required field, in the order the fields are read.
pub open spec fn spec_binary_info_error(info: JsonValue) -> Option<Seq<char>> {
    if spec_get(info, "hashes"@) is None {
        Some("Missing hashes"@)
    } else if spec_sha256_field(info) is None {
        Some("Missing sha256 hash"@)
    } else if spec_filename_field(info) is None {
        Some("Missing filename"@)
    } else if spec_get(info, "file_type"@) is None {
        Some("Missing file_type"@)
    } else if spec_type_field(info) is None {
        Some("Missing file type"@)
    } else {
        None
    }
}

/// The binary a well-formed record denotes.
pub open spec fn spec_binary_ok(info: JsonValue, b: Binary) -> bool {
    &&& spec_binary_info_error(info) is None
    &&& Some(b.hash@) == spec_sha256_field(info)
    &&& Some(b.filename@) == spec_filename_field(info)
    &&& b.file_path@ == or_str(spec_get_str(info, "file_path"@), Seq::empty())
    &&& b.file_size == or_u64(spec_get_u64(info, "file_size"@), 0)
    &&& b.format == spec_format_of(spec_type_field(info).unwrap())
    &&& b.arch@ == or_str(spec_arch_field(info), "unknown"@)
}

/// Parses the binary record: hash and filename are required (their absence
/// is fatal for the batch), path, size and architecture take defaults, and
/// the format is inferred from `file_type.type`.
pub fn parse_binary_info(info: &JsonValue) -> (r: Result<Binary, String>)
    ensures
        match r {
            Ok(b) => spec_binary_ok(*info, b),
            Err(e) => spec_binary_info_error(*info) == Some(e@),
        },
{
    let hashes = match info.get("hashes") {
        Some(h) => h,
        None => {
            return Err(String::from_str("Missing hashes"));
        },
    };
    let sha256 = match hashes.get_str("sha256") {
        Some(s) => s,
        None => match hashes.get_str("SHA256") {
            Some(s) => s,
            None => {
                return Err(String::from_str("Missing sha256 hash"));
            },
        },
    };
    let filename = match info.get_str("name") {
        Some(s) => s,
        None => match info.get_str("filename") {
            Some(s) => s,
            None => {
                return Err(String::from_str("Missing filename"));
            },
        },
    };
    let file_path = match info.get_str("file_path") {
        Some(s) => String::from_str(s),
        None => String::new(),
    };
    let file_size = match info.get_u64("file_size") {
        Some(n) => n,
        None => 0,
    };
    let file_type = match info.get("file_type") {
        Some(ft) => ft,
        None => {
            return Err(String::from_str("Missing file_type"));
        },
    };
    let format_str = match file_type.get_str("type") {
        Some(s) => s,
        None => {
            return Err(String::from_str("Missing file type"));
        },
    };
    let format = classify_format(format_str);
    let arch = match file_type.get_str("architecture") {
        Some(s) => String::from_str(s),
        None => String::from_str("unknown"),
    };
    Ok(
        Binary {
            hash: String::from_str(sha256),
            filename: String::from_str(filename),
            file_path,
            file_size,
            format,
            arch,
        },
    )
}

/// The function a well-formed functions-phase record denotes: name defaults
/// to `unknown`, a missing or unparseable address defaults to zero, the size
/// is kept when given.
pub open spec fn spec_parsed_function(rec: JsonValue, hash: Seq<char>, f: Function) -> bool {
    let name = or_str(spec_get_str(rec, "name"@), "unknown"@);
    let addr_str = or_str(spec_get_str(rec, "address"@), "0x0"@);
    let addr = or_u64(spec_parse_address(addr_str), 0);
    &&& f.uid@ == spec_internal_uid(hash, addr)
    &&& f.name@ == name
    &&& f.ftype == FunctionType::Internal
    &&& f.address is Some
    &&& f.address.unwrap()@ == spec_format_address(addr)
    &&& f.size == spec_get_u64(rec, "size"@)
}

/// Parses the functions section: every record yields a function; only a
/// section that is no array fails, and then the whole phase contributes
/// nothing.
pub fn parse_functions(functions_data: &JsonValue, binary_hash: &str) -> (r: Result<
    Vec<Function>,
    String,
>)
    ensures
        match r {
            Ok(fns) => {
                &&& *functions_data matches JsonValue::Arr(items)
                &&& fns@.len() == items@.len()
                &&& forall|i: int|
                    0 <= i < items@.len() ==> spec_parsed_function(
                        items@[i],
                        binary_hash@,
                        #[trigger] fns@[i],
                    )
            },
            Err(e) => {
                &&& !(*functions_data matches JsonValue::Arr(_))
                &&& e@ == "functions must be an array"@
            },
        },
{
    let items = match functions_data.as_array() {
        Some(a) => a,
        None => {
            return Err(String::from_str("functions must be an array"));
        },
    };
    let n: usize = items.len();
    let mut fns: Vec<Function> = Vec::new();
    let mut i: usize = 0;
    while i < n
        invariant
            i <= n,
            n == items@.len(),
            fns@.len() == i,
            forall|k: int|
                0 <= k < i ==> spec_parsed_function(items@[k], binary_hash@, #[trigger] fns@[k]),
        decreases n - i,
    {
        let rec = &items[i];
        let name: &str = match rec.get_str("name") {
            Some(s) => s,
            None => "unknown",
        };
        let addr_str: &str = match rec.get_str("address") {
            Some(s) => s,
            None => "0x0",
        };
        let addr: u64 = match parse_address(addr_str) {
            Some(a) => a,
            None => 0,
        };
        let size = rec.get_u64("size");
        let mut f = Function::create_internal(binary_hash, addr, name, false);
        f.size = size;
        fns.push(f);
        i = i + 1;
    }
    Ok(fns)
}

/// The string records a strings section denotes: each record is either an
/// object with a `value` field or a bare string (anything else is skipped),
/// paired with its optional address.
pub open spec fn spec_string_records(items: Seq<JsonValue>) -> Seq<(Seq<char>, Option<Seq<char>>)>
    decreases items.len(),
{
    if items.len() == 0 {
        Seq::empty()
    } else {
        let rest = spec_string_records(items.drop_last());
        let rec = items.last();
        match spec_string_value(rec) {
            Some(v) => rest.push((v, spec_get_str(rec, "address"@))),
            None => rest,
        }
    }
}

/// The string content of one strings-phase record: a `value` field, or the
/// record itself when it is a bare string.
pub open spec fn spec_string_value(rec: JsonValue) -> Option<Seq<char>> {
    match spec_get_str(rec, "value"@) {
        Some(v) => Some(v),
        None => crate::json::spec_as_str(rec),
    }
}

/// The node an accepted strings-phase record denotes.
pub open spec fn spec_string_node_matches(
    hash: Seq<char>,
    v: Seq<char>,
    a: Option<Seq<char>>,
    n: crate::nodes::StringNode,
) -> bool {
    &&& n.value@ == crate::nodes::strip_nul(v)
    &&& n.uid@ == crate::nodes::spec_string_node_uid(hash, v)
    &&& match (n.address, a) {
        (Some(s), Some(t)) => s@ == t,
        (None, None) => true,
        _ => false,
    }
}

/// Parses the strings section: records with a string value become string
/// nodes, the rest are skipped; only a section that is no array fails.
pub fn parse_strings(strings_data: &JsonValue, binary_hash: &str) -> (r: Result<
    Vec<crate::nodes::StringNode>,
    String,
>)
    ensures
        match r {
            Ok(nodes) => {
                &&& *strings_data matches JsonValue::Arr(items)
                &&& nodes@.len() == spec_string_records(items@).len()
                &&& forall|i: int|
                    0 <= i < nodes@.len() ==> spec_string_node_matches(
                        binary_hash@,
                        spec_string_records(items@)[i].0,
                        spec_string_records(items@)[i].1,
                        #[trigger] nodes@[i],
                    )
            },
            Err(e) => {
                &&& !(*strings_data matches JsonValue::Arr(_))
                &&& e@ == "strings must be an array"@
            },
        },
{
    let items = match strings_data.as_array() {
        Some(a) => a,
        None => {
            return Err(String::from_str("strings must be an array"));
        },
    };
    let n: usize = items.len();
    let mut nodes: Vec<crate::nodes::StringNode> = Vec::new();
    let mut i: usize = 0;
    proof {
        assert(items@.take(0) =~= Seq::<JsonValue>::empty());
    }
    while i < n
        invariant
            i <= n,
            n == items@.len(),
            nodes@.len() == spec_string_records(items@.take(i as int)).len(),
            forall|k: int|
                0 <= k < nodes@.len() ==> spec_string_node_matches(
                    binary_hash@,
                    spec_string_records(items@.take(i as int))[k].0,
                    spec_string_records(items@.take(i as int))[k].1,
                    #[trigger] nodes@[k],
                ),
        decreases n - i,
    {
        let ghost pre = items@.take(i as int);
        let ghost cur = items@.take(i as int + 1);
        proof {
            assert(cur.drop_last() =~= pre);
            assert(cur.last() == items@[i as int]);
        }
        let rec = &items[i];
        let value: Option<&str> = match rec.get_str("value") {
            Some(v) => Some(v),
            None => rec.as_str(),
        };
        match value {
            Some(v) => {
                let address: Option<String> = match rec.get_str("address") {
                    Some(a) => Some(String::from_str(a)),
                    None => None,
                };
                let node = crate::nodes::StringNode::new(
                    binary_hash,
                    String::from_str(v),
                    address,
                );
                nodes.push(node);
                proof {
                    assert(spec_string_records(cur) =~= spec_string_records(pre).push(
                        (v@, spec_get_str(items@[i as int], "address"@)),
                    ));
                }
            },
            None => {
                proof {
                    assert(spec_string_records(cur) =~= spec_string_records(pre));
                }
            },
        }
        i = i + 1;
    }
    proof {
        assert(items@.take(n as int) =~= items@);
    }
    Ok(nodes)
}

/// The last record with the given node's key, and its fields.
pub open spec fn spec_last_with_uid(s: Seq<crate::nodes::StringNode>, n: crate::nodes::StringNode) -> bool {
    exists|j: int|
        0 <= j < s.len() && s[j] == n && (forall|k: int| j < k < s.len() ==> s[k].uid@ != n.uid@)
}

/// Some node in the sequence carries the given key.
pub open spec fn has_uid(s: Seq<crate::nodes::StringNode>, uid: Seq<char>) -> bool {
    exists|a: int| 0 <= a < s.len() && s[a].uid@ == uid
}

fn contains_uid(out: &Vec<crate::nodes::StringNode>, uid: &str) -> (r: bool)
    ensures
        r == has_uid(out@, uid@),
{
    let n: usize = out.len();
    let mut i: usize = 0;
    while i < n
        invariant
            i <= n,
            n == out@.len(),
            forall|a: int| 0 <= a < i ==> out@[a].uid@ != uid@,
        decreases n - i,
    {
        if crate::text::str_eq(out[i].uid.as_str(), uid) {
            proof {
                assert(0 <= i < out@.len() && out@[i as int].uid@ == uid@);
            }
            return true;
        }
        i = i + 1;
    }
    false
}

/// Collapses string nodes that share a key: each distinct key keeps exactly
/// one node, and that node carries the fields of the last record with that
/// key (later records win).
#[verifier::loop_isolation(false)]
pub fn dedup_strings(nodes: Vec<crate::nodes::StringNode>) -> (r: Vec<crate::nodes::StringNode>)
    ensures
        forall|a: int, b: int| 0 <= a < b < r@.len() ==> r@[a].uid@ != r@[b].uid@,
        forall|a: int| 0 <= a < r@.len() ==> spec_last_with_uid(nodes@, #[trigger] r@[a]),
        forall|j: int| 0 <= j < nodes@.len() ==> has_uid(r@, (#[trigger] nodes@[j]).uid@),
{
    let mut rest = nodes;
    let mut out: Vec<crate::nodes::StringNode> = Vec::new();
    let ghost all = rest@;
    let mut k: usize = rest.len();
    proof {
        assert(all.take(k as int) =~= all);
    }
    while k > 0
        invariant
            k == rest@.len(),
            k <= all.len(),
            rest@ == all.take(k as int),
            forall|a: int, b: int| 0 <= a < b < out@.len() ==> out@[a].uid@ != out@[b].uid@,
            forall|a: int| 0 <= a < out@.len() ==> spec_last_with_uid(all, #[trigger] out@[a]),
            forall|j: int| k <= j < all.len() ==> has_uid(out@, (#[trigger] all[j]).uid@),
        decreases k,
    {
        let n = rest.pop().unwrap();
        k = k - 1;
        let ghost i = k as int;
        proof {
            assert(all.take(i + 1).drop_last() =~= all.take(i));
            assert(rest@ =~= all.take(i));
            assert(all.take(i + 1).last() == all[i]);
            assert(n == all[i]);
        }
        let ghost old_out = out@;
        if !contains_uid(&out, n.uid.as_str()) {
            proof {
                assert forall|kk: int| i < kk < all.len() implies all[kk].uid@ != n.uid@ by {
                    let a0 = choose|a: int| 0 <= a < old_out.len() && old_out[a].uid@ == all[kk].uid@;
                    assert(0 <= a0 < old_out.len() && old_out[a0].uid@ == all[kk].uid@);
                }
            }
            out.push(n);
            proof {
                assert(out@[out@.len() - 1] == all[i]);
                assert(spec_last_with_uid(all, all[i]));
                assert forall|a: int| 0 <= a < out@.len() implies spec_last_with_uid(
                    all,
                    #[trigger] out@[a],
                ) by {
                    if a < old_out.len() {
                        assert(out@[a] == old_out[a]);
                    } else {
                        assert(out@[a] == all[i]);
                    }
                }
                assert forall|j: int| i <= j < all.len() implies has_uid(
                    out@,
                    (#[trigger] all[j]).uid@,
                ) by {
                    if j == i {
                        assert(out@[out@.len() - 1].uid@ == all[j].uid@);
                    } else {
                        let a0 = choose|a: int|
                            0 <= a < old_out.len() && old_out[a].uid@ == all[j].uid@;
                        assert(out@[a0].uid@ == all[j].uid@);
                    }
                }
                assert forall|a: int, b: int| 0 <= a < b < out@.len() implies out@[a].uid@
                    != out@[b].uid@ by {
                    assert(out@[a] == old_out[a]);
                    if b == out@.len() - 1 {
                        assert(out@[b] == all[i]);
                    } else {
                        assert(out@[b] == old_out[b]);
                    }
                }
            }
        } else {
            proof {
                assert(n.uid@ == all[i].uid@);
                assert forall|j: int| i <= j < all.len() implies has_uid(
                    out@,
                    (#[trigger] all[j]).uid@,
                ) by {
                    if j == i {
                        let a0 = choose|a: int|
                            0 <= a < out@.len() && out@[a].uid@ == n.uid@;
                        assert(out@[a0].uid@ == all[j].uid@);
                    }
                }
            }
        }
    }
    proof {
        assert forall|j: int| 0 <= j < nodes@.len() implies has_uid(
            out@,
            (#[trigger] nodes@[j]).uid@,
        ) by {
            assert(has_uid(out@, all[j].uid@));
        }
    }
    out
}

/// Why the imports section cannot be parsed, if it cannot: the first record
/// missing a required field, in order.
pub open spec fn spec_import_error(items: Seq<JsonValue>) -> Option<Seq<char>>
    decreases items.len(),
{
    if items.len() == 0 {
        None
    } else if spec_get_str(items[0], "name"@) is None {
        Some("Import missing name"@)
    } else if spec_get_str(items[0], "library"@) is None {
        Some("Import missing library"@)
    } else {
        spec_import_error(items.drop_first())
    }
}

/// The import record a well-formed imports-phase record denotes.
pub open spec fn spec_parsed_import(rec: JsonValue, imp: Import) -> bool {
    &&& Some(imp.name@) == spec_get_str(rec, "name"@)
    &&& Some(imp.library@) == spec_get_str(rec, "library"@)
    &&& imp.address@ == or_str(spec_get_str(rec, "address"@), "0x0"@)
}

/// The lowercase library name of an imports-phase record.
pub open spec fn spec_lib_lower(rec: JsonValue) -> Seq<char> {
    crate::text::lower_of(or_str(spec_get_str(rec, "library"@), Seq::empty()))
}

/// Some library in the sequence carries the given name.
pub open spec fn has_lib_name(libs: Seq<crate::nodes::Library>, nm: Seq<char>) -> bool {
    exists|a: int| 0 <= a < libs.len() && libs[a].name@ == nm
}

/// The given name is among the views of the given strings.
pub open spec fn name_among(nm: Seq<char>, names: Seq<String>) -> bool {
    exists|j: int| 0 <= j < names.len() && nm == names[j]@
}

/// The given name is the lowercase library name of some record.
pub open spec fn lib_of_some_record(nm: Seq<char>, items: Seq<JsonValue>) -> bool {
    exists|j: int| 0 <= j < items.len() && nm == spec_lib_lower(items[j])
}

fn contains_lib_name(out: &Vec<crate::nodes::Library>, nm: &str) -> (r: bool)
    ensures
        r == has_lib_name(out@, nm@),
{
    let n: usize = out.len();
    let mut i: usize = 0;
    while i < n
        invariant
            i <= n,
            n == out@.len(),
            forall|a: int| 0 <= a < i ==> out@[a].name@ != nm@,
        decreases n - i,
    {
        if crate::text::str_eq(out[i].name.as_str(), nm) {
            proof {
                assert(0 <= i < out@.len() && out@[i as int].name@ == nm@);
            }
            return true;
        }
        i = i + 1;
    }
    false
}

/// Collapses lowercase library names: each distinct name yields exactly one
/// library node.
#[verifier::loop_isolation(false)]
pub fn dedup_libraries(names: Vec<String>) -> (r: Vec<crate::nodes::Library>)
    ensures
        forall|a: int, b: int| 0 <= a < b < r@.len() ==> r@[a].name@ != r@[b].name@,
        forall|a: int| 0 <= a < r@.len() ==> name_among((#[trigger] r@[a]).name@, names@),
        forall|j: int| 0 <= j < names@.len() ==> has_lib_name(r@, (#[trigger] names@[j])@),
{
    let mut rest = names;
    let mut out: Vec<crate::nodes::Library> = Vec::new();
    let ghost all = rest@;
    let mut k: usize = rest.len();
    proof {
        assert(all.take(k as int) =~= all);
    }
    while k > 0
        invariant
            k == rest@.len(),
            k <= all.len(),
            rest@ == all.take(k as int),
            forall|a: int, b: int| 0 <= a < b < out@.len() ==> out@[a].name@ != out@[b].name@,
            forall|a: int| 0 <= a < out@.len() ==> name_among((#[trigger] out@[a]).name@, all),
            forall|j: int| k <= j < all.len() ==> has_lib_name(out@, (#[trigger] all[j])@),
        decreases k,
    {
        let nm = rest.pop().unwrap();
        k = k - 1;
        let ghost i = k as int;
        proof {
            assert(all.take(i + 1).drop_last() =~= all.take(i));
            assert(rest@ =~= all.take(i));
            assert(all.take(i + 1).last() == all[i]);
            assert(nm == all[i]);
        }
        let ghost old_out = out@;
        if !contains_lib_name(&out, nm.as_str()) {
            out.push(crate::nodes::Library { name: nm });
            proof {
                assert(out@[out@.len() - 1].name@ == all[i]@);
                assert(0 <= i < all.len() && out@[out@.len() - 1].name@ == all[i]@);
                assert(name_among(out@[out@.len() - 1].name@, all));
                assert forall|a: int| 0 <= a < out@.len() implies name_among(
                    (#[trigger] out@[a]).name@,
                    all,
                ) by {
                    if a < old_out.len() {
                        assert(out@[a] == old_out[a]);
                        let j0 = choose|j: int| 0 <= j < all.len() && old_out[a].name@ == all[j]@;
                        assert(out@[a].name@ == all[j0]@);
                    } else {
                        assert(out@[a].name@ == all[i]@);
                    }
                }
                assert forall|j: int| i <= j < all.len() implies has_lib_name(
                    out@,
                    (#[trigger] all[j])@,
                ) by {
                    if j == i {
                        assert(out@[out@.len() - 1].name@ == all[j]@);
                    } else {
                        let a0 = choose|a: int|
                            0 <= a < old_out.len() && old_out[a].name@ == all[j]@;
                        assert(out@[a0].name@ == all[j]@);
                    }
                }
                assert forall|a: int, b: int| 0 <= a < b < out@.len() implies out@[a].name@
                    != out@[b].name@ by {
                    assert(out@[a] == old_out[a]);
                    if b == out@.len() - 1 {
                        assert(out@[b].name@ == all[i]@);
                    } else {
                        assert(out@[b] == old_out[b]);
                    }
                }
            }
        } else {
            proof {
                assert forall|j: int| i <= j < all.len() implies has_lib_name(
                    out@,
                    (#[trigger] all[j])@,
                ) by {
                    if j == i {
                        let a0 = choose|a: int|
                            0 <= a < out@.len() && out@[a].name@ == nm@;
                        assert(out@[a0].name@ == all[j]@);
                    }
                }
            }
        }
    }
    out
}

/// Parses the imports section. A record missing its name or library fails
/// the whole phase; otherwise every record yields an import, and the
/// libraries are deduplicated by lowercase name - at most one library per
/// distinct lowercase name.
#[verifier::loop_isolation(false)]
pub fn parse_imports(imports_data: &JsonValue) -> (r: Result<
    (Vec<crate::nodes::Library>, Vec<Import>),
    String,
>)
    ensures
        match r {
            Ok(out) => {
                &&& *imports_data matches JsonValue::Arr(items)
                &&& spec_import_error(items@) is None
                &&& out.1@.len() == items@.len()
                &&& forall|i: int|
                    0 <= i < items@.len() ==> spec_parsed_import(items@[i], #[trigger] out.1@[i])
                &&& forall|a: int, b: int|
                    0 <= a < b < out.0@.len() ==> out.0@[a].name@ != out.0@[b].name@
                &&& forall|a: int|
                    0 <= a < out.0@.len() ==> lib_of_some_record(
                        (#[trigger] out.0@[a]).name@,
                        items@,
                    )
                &&& forall|j: int|
                    0 <= j < items@.len() ==> has_lib_name(
                        out.0@,
                        spec_lib_lower(#[trigger] items@[j]),
                    )
            },
            Err(e) => {
                &&& (!(*imports_data matches JsonValue::Arr(_)) && e@
                    == "imports must be an array"@) || (*imports_data matches JsonValue::Arr(
                    items,
                ) && spec_import_error(items@) == Some(e@))
            },
        },
{
    let items = match imports_data.as_array() {
        Some(a) => a,
        None => {
            return Err(String::from_str("imports must be an array"));
        },
    };
    let n: usize = items.len();
    let mut lowered: Vec<String> = Vec::new();
    let mut imports: Vec<Import> = Vec::new();
    let mut i: usize = 0;
    proof {
        assert(items@.skip(0) =~= items@);
    }
    while i < n
        invariant
            i <= n,
            spec_import_error(items@) == spec_import_error(items@.skip(i as int)),
            imports@.len() == i,
            lowered@.len() == i,
            forall|k: int|
                0 <= k < i ==> spec_parsed_import(items@[k], #[trigger] imports@[k]),
            forall|k: int|
                0 <= k < i ==> (#[trigger] lowered@[k])@ == spec_lib_lower(items@[k]),
        decreases n - i,
    {
        proof {
            assert(items@.skip(i as int)[0] == items@[i as int]);
            assert(items@.skip(i as int).drop_first() =~= items@.skip(i as int + 1));
        }
        let rec = &items[i];
        let name: &str = match rec.get_str("name") {
            Some(s) => s,
            None => {
                return Err(String::from_str("Import missing name"));
            },
        };
        let library: &str = match rec.get_str("library") {
            Some(s) => s,
            None => {
                return Err(String::from_str("Import missing library"));
            },
        };
        let address: &str = match rec.get_str("address") {
            Some(s) => s,
            None => "0x0",
        };
        lowered.push(crate::text::lowercase(library));
        imports.push(
            Import {
                name: String::from_str(name),
                address: String::from_str(address),
                library: String::from_str(library),
            },
        );
        i = i + 1;
    }
    proof {
        assert(items@.skip(n as int) =~= Seq::<JsonValue>::empty());
    }
    let ghost lnames = lowered@;
    let libraries = dedup_libraries(lowered);
    proof {
        assert forall|a: int| 0 <= a < libraries@.len() implies lib_of_some_record(
            (#[trigger] libraries@[a]).name@,
            items@,
        ) by {
            let j0 = choose|j: int| 0 <= j < lnames.len() && libraries@[a].name@ == lnames[j]@;
            assert(libraries@[a].name@ == spec_lib_lower(items@[j0]));
        }
        assert forall|j: int| 0 <= j < items@.len() implies has_lib_name(
            libraries@,
            spec_lib_lower(#[trigger] items@[j]),
        ) by {
            assert(lnames[j]@ == spec_lib_lower(items@[j]));
            assert(has_lib_name(libraries@, lnames[j]@));
        }
    }
    Ok((libraries, imports))
}

/// Why the exports section cannot be parsed, if it cannot: the first record
/// missing a required field, in order.
pub open spec fn spec_export_error(items: Seq<JsonValue>) -> Option<Seq<char>>
    decreases items.len(),
{
    if items.len() == 0 {
        None
    } else if spec_get_str(items[0], "name"@) is None {
        Some("Export missing name"@)
    } else if spec_get_str(items[0], "address"@) is None {
        Some("Export missing address"@)
    } else {
        spec_export_error(items.drop_first())
    }
}

/// The export record a well-formed exports-phase record denotes.
pub open spec fn spec_parsed_export(rec: JsonValue, e: Export) -> bool {
    &&& Some(e.name@) == spec_get_str(rec, "name"@)
    &&& Some(e.address@) == spec_get_str(rec, "address"@)
}

/// Parses the exports section. A record missing its name or address fails
/// the whole phase; otherwise every record yields an export.
#[verifier::loop_isolation(false)]
pub fn parse_exports(exports_data: &JsonValue) -> (r: Result<Vec<Export>, String>)
    ensures
        match r {
            Ok(exports) => {
                &&& *exports_data matches JsonValue::Arr(items)
                &&& spec_export_error(items@) is None
                &&& exports@.len() == items@.len()
                &&& forall|i: int|
                    0 <= i < items@.len() ==> spec_parsed_export(items@[i], #[trigger] exports@[i])
            },
            Err(e) => {
                &&& (!(*exports_data matches JsonValue::Arr(_)) && e@
                    == "exports must be an array"@) || (*exports_data matches JsonValue::Arr(
                    items,
                ) && spec_export_error(items@) == Some(e@))
            },
        },
{
    let items = match exports_data.as_array() {
        Some(a) => a,
        None => {
            return Err(String::from_str("exports must be an array"));
        },
    };
    let n: usize = items.len();
    let mut exports: Vec<Export> = Vec::new();
    let mut i: usize = 0;
    proof {
        assert(items@.skip(0) =~= items@);
    }
    while i < n
        invariant
            i <= n,
            spec_export_error(items@) == spec_export_error(items@.skip(i as int)),
            exports@.len() == i,
            forall|k: int|
                0 <= k < i ==> spec_parsed_export(items@[k], #[trigger] exports@[k]),
        decreases n - i,
    {
        proof {
            assert(items@.skip(i as int)[0] == items@[i as int]);
            assert(items@.skip(i as int).drop_first() =~= items@.skip(i as int + 1));
        }
        let rec = &items[i];
        let name: &str = match rec.get_str("name") {
            Some(s) => s,
            None => {
                return Err(String::from_str("Export missing name"));
            },
        };
        let address: &str = match rec.get_str("address") {
            Some(s) => s,
            None => {
                return Err(String::from_str("Export missing address"));
            },
        };
        exports.push(Export { name: String::from_str(name), address: String::from_str(address) });
        i = i + 1;
    }
    proof {
        assert(items@.skip(n as int) =~= Seq::<JsonValue>::empty());
    }
    Ok(exports)
}

/// One structural complaint: a required field of the given object is
/// missing.
pub open spec fn spec_missing_field(bi: JsonValue, key: Seq<char>, msg: Seq<char>) -> Seq<
    Seq<char>,
> {
    if spec_get(bi, key) is None {
        seq![msg]
    } else {
        Seq::empty()
    }
}

/// The structural complaints about the binary record.
pub open spec fn spec_bi_errors(data: JsonValue) -> Seq<Seq<char>> {
    match spec_get(data, "binary_info"@) {
        None => seq!["binary_info is required"@],
        Some(bi) => if !(bi matches JsonValue::Obj(_)) {
            seq!["binary_info must be an object"@]
        } else {
            spec_missing_field(bi, "name"@, "binary_info missing required field: name"@)
                + spec_missing_field(
                bi,
                "file_path"@,
                "binary_info missing required field: file_path"@,
            ) + spec_missing_field(
                bi,
                "file_size"@,
                "binary_info missing required field: file_size"@,
            ) + spec_missing_field(
                bi,
                "file_type"@,
                "binary_info missing required field: file_type"@,
            ) + spec_missing_field(bi, "hashes"@, "binary_info missing required field: hashes"@)
        },
    }
}

/// The structural complaint about one optional array section.
pub open spec fn spec_arr_error(data: JsonValue, key: Seq<char>, msg: Seq<char>) -> Seq<
    Seq<char>,
> {
    match spec_get(data, key) {
        Some(v) => if v matches JsonValue::Arr(_) {
            Seq::empty()
        } else {
            seq![msg]
        },
        None => Seq::empty(),
    }
}

/// Every structural complaint about a payload, in the order the checks
/// run: the binary record first, then each optional section.
pub open spec fn spec_validation_errors(data: JsonValue) -> Seq<Seq<char>> {
    spec_bi_errors(data) + spec_arr_error(data, "functions"@, "functions must be an array"@)
        + spec_arr_error(data, "strings"@, "strings must be an array"@) + spec_arr_error(
        data,
        "imports"@,
        "imports must be an array"@,
    ) + spec_arr_error(data, "exports"@, "exports must be an array"@)
}

/// Checks a payload's structure without importing anything: the binary
/// record must be an object with its required fields, and each optional
/// section must be an array.
#[verifier::rlimit(60)]
pub fn validate_data(data: &JsonValue) -> (r: ValidationResult)
    ensures
        r.errors.deep_view() == spec_validation_errors(*data),
        r.valid == (spec_validation_errors(*data).len() == 0),
        r.warnings@.len() == 0,
{
    let mut errors: Vec<String> = Vec::new();
    match data.get("binary_info") {
        Some(bi) => {
            if !bi.is_object() {
                errors.push(String::from_str("binary_info must be an object"));
            } else {
                if bi.get("name").is_none() {
                    errors.push(String::from_str("binary_info missing required field: name"));
                }
                if bi.get("file_path").is_none() {
                    errors.push(
                        String::from_str("binary_info missing required field: file_path"),
                    );
                }
                if bi.get("file_size").is_none() {
                    errors.push(
                        String::from_str("binary_info missing required field: file_size"),
                    );
                }
                if bi.get("file_type").is_none() {
                    errors.push(
                        String::from_str("binary_info missing required field: file_type"),
                    );
                }
                if bi.get("hashes").is_none() {
                    errors.push(String::from_str("binary_info missing required field: hashes"));
                }
            }
        },
        None => {
            errors.push(String::from_str("binary_info is required"));
        },
    }
    proof {
        assert(errors.deep_view() =~~= spec_bi_errors(*data));
    }
    let ghost dv1 = spec_bi_errors(*data);
    match data.get("functions") {
        Some(v) => {
            if !v.is_array() {
                errors.push(String::from_str("functions must be an array"));
            }
        },
        None => {},
    }
    proof {
        assert(errors.deep_view() =~~= dv1 + spec_arr_error(
            *data,
            "functions"@,
            "functions must be an array"@,
        ));
    }
    let ghost dv2 = dv1 + spec_arr_error(*data, "functions"@, "functions must be an array"@);
    match data.get("strings") {
        Some(v) => {
            if !v.is_array() {
                errors.push(String::from_str("strings must be an array"));
            }
        },
        None => {},
    }
    proof {
        assert(errors.deep_view() =~~= dv2 + spec_arr_error(
            *data,
            "strings"@,
            "strings must be an array"@,
        ));
    }
    let ghost dv3 = dv2 + spec_arr_error(*data, "strings"@, "strings must be an array"@);
    match data.get("imports") {
        Some(v) => {
            if !v.is_array() {
                errors.push(String::from_str("imports must be an array"));
            }
        },
        None => {},
    }
    proof {
        assert(errors.deep_view() =~~= dv3 + spec_arr_error(
            *data,
            "imports"@,
            "imports must be an array"@,
        ));
    }
    let ghost dv4 = dv3 + spec_arr_error(*data, "imports"@, "imports must be an array"@);
    match data.get("exports") {
        Some(v) => {
            if !v.is_array() {
                errors.push(String::from_str("exports must be an array"));
            }
        },
        None => {},
    }
    let valid = errors.is_empty();
    proof {
        assert(errors.deep_view() =~~= spec_validation_errors(*data));
    }
    ValidationResult { valid, errors, warnings: Vec::new() }
}

/// One resolved call edge, ready to persist: the edge payload and both
/// endpoint keys.
#[derive(Debug, Clone)]
pub struct PlannedCall {
    /// The edge payload: offset and call type.
    pub calls: crate::relationships::Calls,
    /// Key of the calling function.
    pub from_uid: String,
    /// Key of the called function.
    pub to_uid: String,
}

/// Why the calls section cannot be parsed, if it cannot: the first record
/// missing an endpoint, in order.
pub open spec fn spec_call_error(items: Seq<JsonValue>) -> Option<Seq<char>>
    decreases items.len(),
{
    if items.len() == 0 {
        None
    } else if spec_get_str(items[0], "from_address"@) is None {
        Some("Call missing from_address"@)
    } else if spec_get_str(items[0], "to_address"@) is None {
        Some("Call missing to_address"@)
    } else {
        spec_call_error(items.drop_first())
    }
}

/// Address-map lookup for one call endpoint: the normalized form is tried
/// first, then the raw form.
pub open spec fn spec_endpoint_uid(m: Map<Seq<char>, String>, a: Seq<char>) -> Option<String> {
    let norm = match spec_normalize_address(a) {
        Some(t) => t,
        None => a,
    };
    if m.dom().contains(norm) {
        Some(m[norm])
    } else if m.dom().contains(a) {
        Some(m[a])
    } else {
        None
    }
}

/// Both endpoints of the record resolve in the address map.
pub open spec fn spec_call_resolved(m: Map<Seq<char>, String>, rec: JsonValue) -> bool {
    match (spec_get_str(rec, "from_address"@), spec_get_str(rec, "to_address"@)) {
        (Some(fa), Some(ta)) => spec_endpoint_uid(m, fa) is Some && spec_endpoint_uid(m, ta)
            is Some,
        _ => false,
    }
}

/// The planned edge a resolvable call record denotes: endpoint keys from
/// the map, offset defaulting to `0x0`, call type defaulting to direct.
pub open spec fn spec_planned_call_matches(
    m: Map<Seq<char>, String>,
    rec: JsonValue,
    pc: PlannedCall,
) -> bool {
    &&& Some(pc.from_uid) == spec_endpoint_uid(m, spec_get_str(rec, "from_address"@).unwrap())
    &&& Some(pc.to_uid) == spec_endpoint_uid(m, spec_get_str(rec, "to_address"@).unwrap())
    &&& pc.calls.offset@ == or_str(spec_get_str(rec, "offset"@), "0x0"@)
    &&& pc.calls.call_type == crate::relationships::spec_call_type(
        or_str(spec_get_str(rec, "type"@), "direct"@),
    )
    &&& pc.calls.rel_type@ == "CALLS"@
}

/// The planned edges are exactly the resolvable records, in order; records
/// whose endpoints do not resolve contribute nothing.
pub open spec fn spec_calls_match(
    m: Map<Seq<char>, String>,
    items: Seq<JsonValue>,
    out: Seq<PlannedCall>,
) -> bool
    decreases items.len(),
{
    if items.len() == 0 {
        out.len() == 0
    } else if spec_call_resolved(m, items.last()) {
        &&& out.len() > 0
        &&& spec_planned_call_matches(m, items.last(), out.last())
        &&& spec_calls_match(m, items.drop_last(), out.drop_last())
    } else {
        spec_calls_match(m, items.drop_last(), out)
    }
}

/// Resolves one endpoint address against the address map.
fn resolve_endpoint(map: &crate::strmap::StrMap<String>, addr: &str) -> (r: Option<String>)
    ensures
        match r {
            Some(u) => spec_endpoint_uid(map@, addr@) == Some(u),
            None => spec_endpoint_uid(map@, addr@) is None,
        },
{
    let norm = match normalize_address(addr) {
        Some(t) => t,
        None => String::from_str(addr),
    };
    match map.get(norm.as_str()) {
        Some(u) => Some(u.clone()),
        None => match map.get(addr) {
            Some(u) => Some(u.clone()),
            None => None,
        },
    }
}

/// Resolves the calls section against the address map. A record missing an
/// endpoint address fails the whole phase; a record whose endpoints do not
/// both resolve is skipped and counted, never an error.
#[verifier::loop_isolation(false)]
pub fn resolve_calls(calls_data: &JsonValue, map: &crate::strmap::StrMap<String>) -> (r: Result<
    (Vec<PlannedCall>, u64),
    String,
>)
    ensures
        match r {
            Ok(out) => {
                &&& *calls_data matches JsonValue::Arr(items)
                &&& spec_call_error(items@) is None
                &&& spec_calls_match(map@, items@, out.0@)
                &&& out.1 + out.0@.len() == items@.len()
            },
            Err(e) => {
                &&& (!(*calls_data matches JsonValue::Arr(_)) && e@ == "calls must be an array"@)
                    || (*calls_data matches JsonValue::Arr(items) && spec_call_error(items@)
                    == Some(e@))
            },
        },
{
    let items = match calls_data.as_array() {
        Some(a) => a,
        None => {
            return Err(String::from_str("calls must be an array"));
        },
    };
    let n: usize = items.len();
    let mut out: Vec<PlannedCall> = Vec::new();
    let mut skipped: u64 = 0;
    let mut i: usize = 0;
    proof {
        assert(items@.skip(0) =~= items@);
        assert(spec_calls_match(map@, items@.take(0), out@));
    }
    while i < n
        invariant
            i <= n,
            spec_call_error(items@) == spec_call_error(items@.skip(i as int)),
            spec_calls_match(map@, items@.take(i as int), out@),
            skipped + out@.len() == i,
        decreases n - i,
    {
        proof {
            assert(items@.skip(i as int)[0] == items@[i as int]);
            assert(items@.skip(i as int).drop_first() =~= items@.skip(i as int + 1));
            assert(items@.take(i as int + 1).drop_last() =~= items@.take(i as int));
            assert(items@.take(i as int + 1).last() == items@[i as int]);
        }
        let rec = &items[i];
        let from_addr: &str = match rec.get_str("from_address") {
            Some(s) => s,
            None => {
                return Err(String::from_str("Call missing from_address"));
            },
        };
        let to_addr: &str = match rec.get_str("to_address") {
            Some(s) => s,
            None => {
                return Err(String::from_str("Call missing to_address"));
            },
        };
        let offset: &str = match rec.get_str("offset") {
            Some(s) => s,
            None => "0x0",
        };
        let call_type_str: &str = match rec.get_str("type") {
            Some(s) => s,
            None => "direct",
        };
        let from_uid = resolve_endpoint(map, from_addr);
        let to_uid = resolve_endpoint(map, to_addr);
        match (from_uid, to_uid) {
            (Some(fu), Some(tu)) => {
                let call_type = crate::relationships::CallType::from_token(call_type_str);
                let calls = crate::relationships::Calls::new(String::from_str(offset), call_type);
                let pc = PlannedCall { calls, from_uid: fu, to_uid: tu };
                proof {
                    assert(spec_call_resolved(map@, items@[i as int]));
                    assert(spec_planned_call_matches(map@, items@[i as int], pc));
                }
                let ghost old_out = out@;
                out.push(pc);
                proof {
                    assert(out@.drop_last() =~= old_out);
                }
            },
            _ => {
                proof {
                    assert(!spec_call_resolved(map@, items@[i as int]));
                }
                skipped = skipped + 1;
            },
        }
        i = i + 1;
    }
    proof {
        assert(items@.take(n as int) =~= items@);
        assert(items@.skip(n as int) =~= Seq::<JsonValue>::empty());
    }
    Ok((out, skipped))
}

/// Registers one address under a key: the normalized form when the address
/// parses, and always the raw form, both pointing at the key.
pub open spec fn spec_register(
    m: Map<Seq<char>, String>,
    addr: Seq<char>,
    uid: String,
) -> Map<Seq<char>, String> {
    let m1 = match spec_normalize_address(addr) {
        Some(na) => m.insert(na, uid),
        None => m,
    };
    m1.insert(addr, uid)
}

/// The address map after registering every function of the sequence that
/// carries an address, in order, under its key.
pub open spec fn spec_register_functions(
    m: Map<Seq<char>, String>,
    fns: Seq<Function>,
) -> Map<Seq<char>, String>
    decreases fns.len(),
{
    if fns.len() == 0 {
        m
    } else {
        let prev = spec_register_functions(m, fns.drop_last());
        match fns.last().address {
            Some(a) => spec_register(prev, a@, fns.last().uid),
            None => prev,
        }
    }
}

/// The address map after registering export functions: an export claims its
/// address only when the raw canonical form is not already claimed —
/// earlier phases take precedence on collision.
pub open spec fn spec_register_exports(
    m: Map<Seq<char>, String>,
    fns: Seq<Function>,
) -> Map<Seq<char>, String>
    decreases fns.len(),
{
    if fns.len() == 0 {
        m
    } else {
        let prev = spec_register_exports(m, fns.drop_last());
        match fns.last().address {
            Some(a) => if !prev.dom().contains(a@) {
                spec_register(prev, a@, fns.last().uid)
            } else {
                prev
            },
            None => prev,
        }
    }
}

fn register_address(map: &mut crate::strmap::StrMap<String>, addr: &str, uid: &String)
    ensures
        final(map)@ == spec_register(old(map)@, addr@, *uid),
{
    match normalize_address(addr) {
        Some(na) => {
            map.insert(na, uid.clone());
        },
        None => {},
    }
    map.insert(String::from_str(addr), uid.clone());
}

/// Extends the address map with every function of the batch that carries an
/// address, both raw and normalized forms pointing at the function's key.
#[verifier::loop_isolation(false)]
pub fn register_function_addresses(
    map: &mut crate::strmap::StrMap<String>,
    fns: &Vec<Function>,
)
    ensures
        final(map)@ == spec_register_functions(old(map)@, fns@),
{
    let n: usize = fns.len();
    let mut i: usize = 0;
    proof {
        assert(fns@.take(0) =~= Seq::<Function>::empty());
    }
    while i < n
        invariant
            i <= n,
            map@ == spec_register_functions(old(map)@, fns@.take(i as int)),
        decreases n - i,
    {
        proof {
            assert(fns@.take(i as int + 1).drop_last() =~= fns@.take(i as int));
            assert(fns@.take(i as int + 1).last() == fns@[i as int]);
        }
        let f = &fns[i];
        match &f.address {
            Some(a) => {
                register_address(map, a.as_str(), &f.uid);
            },
            None => {},
        }
        i = i + 1;
    }
    proof {
        assert(fns@.take(n as int) =~= fns@);
    }
}

/// Extends the address map with export functions, leaving addresses already
/// claimed by earlier phases untouched.
#[verifier::loop_isolation(false)]
pub fn register_export_addresses(
    map: &mut crate::strmap::StrMap<String>,
    fns: &Vec<Function>,
)
    ensures
        final(map)@ == spec_register_exports(old(map)@, fns@),
{
    let n: usize = fns.len();
    let mut i: usize = 0;
    proof {
        assert(fns@.take(0) =~= Seq::<Function>::empty());
    }
    while i < n
        invariant
            i <= n,
            map@ == spec_register_exports(old(map)@, fns@.take(i as int)),
        decreases n - i,
    {
        proof {
            assert(fns@.take(i as int + 1).drop_last() =~= fns@.take(i as int));
            assert(fns@.take(i as int + 1).last() == fns@[i as int]);
        }
        let f = &fns[i];
        match &f.address {
            Some(a) => {
                if !map.contains_key(a.as_str()) {
                    register_address(map, a.as_str(), &f.uid);
                }
            },
            None => {},
        }
        i = i + 1;
    }
    proof {
        assert(fns@.take(n as int) =~= fns@);
    }
}

/// One import-phase function together with the lowercase library it
/// belongs to.
#[derive(Debug, Clone)]
pub struct ImportFunctionPlan {
    /// The synthesized import function.
    pub function: Function,
    /// Lowercase library name, for the BELONGS_TO edge.
    pub library: String,
}

/// The import function one import record denotes.
pub open spec fn spec_import_plan_matches(hash: Seq<char>, imp: Import, p: ImportFunctionPlan) -> bool {
    &&& p.function.uid@ == crate::nodes::spec_import_addr_uid(
        hash,
        crate::text::lower_of(imp.library@),
        imp.name@,
    )
    &&& p.function.name@ == imp.name@
    &&& p.function.ftype == FunctionType::Import
    &&& p.function.address is Some
    &&& p.function.address.unwrap()@ == imp.address@
    &&& p.function.size is None
    &&& p.library@ == crate::text::lower_of(imp.library@)
}

/// Synthesizes one binary-scoped import function per import record and
/// registers its address in the map.
#[verifier::loop_isolation(false)]
fn build_import_functions(
    map: &mut crate::strmap::StrMap<String>,
    imports: &Vec<Import>,
    binary_hash: &str,
) -> (r: Vec<ImportFunctionPlan>)
    ensures
        r@.len() == imports@.len(),
        forall|i: int|
            0 <= i < imports@.len() ==> spec_import_plan_matches(
                binary_hash@,
                imports@[i],
                #[trigger] r@[i],
            ),
        final(map)@ == spec_register_functions(
            old(map)@,
            r@.map_values(|p: ImportFunctionPlan| p.function),
        ),
{
    let n: usize = imports.len();
    let mut plans: Vec<ImportFunctionPlan> = Vec::new();
    let mut i: usize = 0;
    proof {
        assert(plans@.map_values(|p: ImportFunctionPlan| p.function) =~= Seq::<Function>::empty());
    }
    while i < n
        invariant
            i <= n,
            plans@.len() == i,
            forall|k: int|
                0 <= k < i ==> spec_import_plan_matches(
                    binary_hash@,
                    imports@[k],
                    #[trigger] plans@[k],
                ),
            map@ == spec_register_functions(
                old(map)@,
                plans@.map_values(|p: ImportFunctionPlan| p.function),
            ),
        decreases n - i,
    {
        let ghost old_fns = plans@.map_values(|p: ImportFunctionPlan| p.function);
        let imp = &imports[i];
        let lib_lower = crate::text::lowercase(imp.library.as_str());
        let f = Function::create_import_with_address(
            binary_hash,
            lib_lower.as_str(),
            imp.name.as_str(),
            imp.address.as_str(),
        );
        register_address(map, imp.address.as_str(), &f.uid);
        plans.push(ImportFunctionPlan { function: f, library: lib_lower });
        proof {
            let new_fns = plans@.map_values(|p: ImportFunctionPlan| p.function);
            assert(new_fns.drop_last() =~= old_fns);
            assert(new_fns.last() == plans@.last().function);
        }
        i = i + 1;
    }
    plans
}

/// Every export in the sequence carries a parseable address.
pub open spec fn spec_all_exports_parseable(exps: Seq<Export>) -> bool {
    forall|j: int|
        0 <= j < exps.len() ==> spec_parse_address((#[trigger] exps[j]).address@) is Some
}

/// Some export in the sequence carries an unparseable address.
pub open spec fn spec_some_export_unparseable(exps: Seq<Export>) -> bool {
    exists|j: int|
        0 <= j < exps.len() && spec_parse_address((#[trigger] exps[j]).address@) is None
}

/// The export function one export record with a parseable address denotes.
pub open spec fn spec_export_fn_matches(hash: Seq<char>, e: Export, addr: u64, f: Function) -> bool {
    &&& f.uid@ == spec_internal_uid(hash, addr)
    &&& f.name@ == e.name@
    &&& f.ftype == FunctionType::Export
    &&& f.address is Some
    &&& f.address.unwrap()@ == spec_format_address(addr)
    &&& f.size is None
}

/// The synthesized export functions are exactly the exports with parseable
/// addresses, in order.
pub open spec fn spec_exports_match(hash: Seq<char>, exps: Seq<Export>, out: Seq<Function>) -> bool
    decreases exps.len(),
{
    if exps.len() == 0 {
        out.len() == 0
    } else {
        match spec_parse_address(exps.last().address@) {
            Some(addr) => {
                &&& out.len() > 0
                &&& spec_export_fn_matches(hash, exps.last(), addr, out.last())
                &&& spec_exports_match(hash, exps.drop_last(), out.drop_last())
            },
            None => spec_exports_match(hash, exps.drop_last(), out),
        }
    }
}

/// Synthesizes an export function per export record; a record whose address
/// does not parse is skipped with a recorded error, never fatal.
#[verifier::loop_isolation(false)]
fn build_export_functions(exports: &Vec<Export>, binary_hash: &str, errors: &mut Vec<String>) -> (r:
    Vec<Function>)
    ensures
        spec_exports_match(binary_hash@, exports@, r@),
        final(errors)@.len() >= old(errors)@.len(),
        spec_all_exports_parseable(exports@) ==> final(errors)@ == old(errors)@,
        spec_some_export_unparseable(exports@) ==> final(errors)@.len() > old(errors)@.len(),
{
    let n: usize = exports.len();
    let mut out: Vec<Function> = Vec::new();
    let mut i: usize = 0;
    proof {
        assert(exports@.take(0) =~= Seq::<Export>::empty());
    }
    while i < n
        invariant
            i <= n,
            spec_exports_match(binary_hash@, exports@.take(i as int), out@),
            errors@.len() >= old(errors)@.len(),
            (forall|j: int|
                0 <= j < i ==> spec_parse_address((#[trigger] exports@[j]).address@) is Some)
                ==> errors@ == old(errors)@,
            (exists|j: int|
                0 <= j < i && spec_parse_address((#[trigger] exports@[j]).address@) is None)
                ==> errors@.len() > old(errors)@.len(),
        decreases n - i,
    {
        proof {
            assert(exports@.take(i as int + 1).drop_last() =~= exports@.take(i as int));
            assert(exports@.take(i as int + 1).last() == exports@[i as int]);
        }
        let e = &exports[i];
        match parse_address(e.address.as_str()) {
            Some(addr) => {
                let f = Function::create_internal(binary_hash, addr, e.name.as_str(), true);
                let ghost old_out = out@;
                out.push(f);
                proof {
                    assert(out@.drop_last() =~= old_out);
                }
            },
            None => {
                let mut msg = String::from_str("Invalid export address: ");
                msg.append(e.address.as_str());
                errors.push(msg);
            },
        }
        i = i + 1;
    }
    proof {
        assert(exports@.take(n as int) =~= exports@);
        if spec_some_export_unparseable(exports@) {
            let j0 = choose|j: int|
                0 <= j < exports@.len() && spec_parse_address(
                    (#[trigger] exports@[j]).address@,
                ) is None;
            assert(exists|j: int|
                0 <= j < n && spec_parse_address((#[trigger] exports@[j]).address@) is None);
        }
    }
    out
}

/// The batch is fatal: the binary record is missing or cannot be parsed,
/// so no partial import is possible.
pub open spec fn spec_fatal(data: JsonValue) -> bool {
    spec_get(data, "binary_info"@) is None || spec_binary_info_error(
        spec_get(data, "binary_info"@).unwrap(),
    ) is Some
}

/// The single error a fatal batch reports.
pub open spec fn spec_fatal_error(data: JsonValue) -> Seq<char> {
    if spec_get(data, "binary_info"@) is None {
        "Missing binary_info in data"@
    } else {
        "Failed to parse binary info: "@ + spec_binary_info_error(
            spec_get(data, "binary_info"@).unwrap(),
        ).unwrap()
    }
}

/// The section under `key` is absent or an array.
pub open spec fn spec_section_array_ok(data: JsonValue, key: Seq<char>) -> bool {
    match spec_get(data, key) {
        Some(v) => v matches JsonValue::Arr(_),
        None => true,
    }
}

/// Every exports-section record carries a parseable address string.
pub open spec fn spec_all_export_records_parseable(items: Seq<JsonValue>) -> bool {
    forall|j: int|
        0 <= j < items.len() ==> spec_parse_address(
            or_str(spec_get_str(#[trigger] items[j], "address"@), Seq::empty()),
        ) is Some
}

/// No phase of the batch has anything to complain about.
pub open spec fn spec_phase_clean(data: JsonValue) -> bool {
    &&& spec_section_array_ok(data, "functions"@)
    &&& spec_section_array_ok(data, "strings"@)
    &&& match spec_get(data, "imports"@) {
        Some(v) => v matches JsonValue::Arr(items) && spec_import_error(items@) is None,
        None => true,
    }
    &&& match spec_get(data, "exports"@) {
        Some(v) => v matches JsonValue::Arr(items) && spec_export_error(items@) is None
            && spec_all_export_records_parseable(items@),
        None => true,
    }
    &&& match spec_get(data, "calls"@) {
        Some(v) => v matches JsonValue::Arr(items) && spec_call_error(items@) is None,
        None => true,
    }
}

/// The export function one exports-section record with a parseable address
/// denotes.
pub open spec fn spec_export_record_fn(
    hash: Seq<char>,
    rec: JsonValue,
    addr: u64,
    f: Function,
) -> bool {
    &&& f.uid@ == spec_internal_uid(hash, addr)
    &&& f.name@ == spec_get_str(rec, "name"@).unwrap()
    &&& f.ftype == FunctionType::Export
    &&& f.address is Some
    &&& f.address.unwrap()@ == spec_format_address(addr)
    &&& f.size is None
}

/// The synthesized export functions are exactly the exports-section records
/// with parseable addresses, in order.
pub open spec fn spec_export_records_match(
    hash: Seq<char>,
    items: Seq<JsonValue>,
    out: Seq<Function>,
) -> bool
    decreases items.len(),
{
    if items.len() == 0 {
        out.len() == 0
    } else {
        let rec = items.last();
        match spec_parse_address(spec_get_str(rec, "address"@).unwrap()) {
            Some(addr) => {
                &&& out.len() > 0
                &&& spec_export_record_fn(hash, rec, addr, out.last())
                &&& spec_export_records_match(hash, items.drop_last(), out.drop_last())
            },
            None => spec_export_records_match(hash, items.drop_last(), out),
        }
    }
}

proof fn lemma_exports_bridge(
    hash: Seq<char>,
    items: Seq<JsonValue>,
    exps: Seq<Export>,
    out: Seq<Function>,
)
    requires
        exps.len() == items.len(),
        forall|j: int| 0 <= j < items.len() ==> spec_parsed_export(items[j], #[trigger] exps[j]),
        spec_exports_match(hash, exps, out),
    ensures
        spec_export_records_match(hash, items, out),
    decreases items.len(),
{
    if items.len() > 0 {
        assert(spec_parsed_export(items.last(), exps.last()));
        assert(forall|j: int|
            0 <= j < items.drop_last().len() ==> spec_parsed_export(
                items.drop_last()[j],
                #[trigger] exps.drop_last()[j],
            ));
        match spec_parse_address(exps.last().address@) {
            Some(addr) => {
                lemma_exports_bridge(hash, items.drop_last(), exps.drop_last(), out.drop_last());
            },
            None => {
                lemma_exports_bridge(hash, items.drop_last(), exps.drop_last(), out);
            },
        }
    }
}

/// The node stands for the last strings-section record with its key: some
/// record denotes it, and no later record shares its key.
pub open spec fn spec_record_node(
    hash: Seq<char>,
    recs: Seq<(Seq<char>, Option<Seq<char>>)>,
    n: crate::nodes::StringNode,
) -> bool {
    exists|j: int|
        0 <= j < recs.len() && spec_string_node_matches(hash, recs[j].0, recs[j].1, n) && (
        forall|k: int|
            j < k < recs.len() ==> crate::nodes::spec_string_node_uid(hash, recs[k].0) != n.uid@)
}

proof fn lemma_strings_bridge(
    hash: Seq<char>,
    recs: Seq<(Seq<char>, Option<Seq<char>>)>,
    parsed: Seq<crate::nodes::StringNode>,
    out: Seq<crate::nodes::StringNode>,
)
    requires
        parsed.len() == recs.len(),
        forall|j: int|
            0 <= j < recs.len() ==> spec_string_node_matches(
                hash,
                recs[j].0,
                recs[j].1,
                #[trigger] parsed[j],
            ),
        forall|a: int| 0 <= a < out.len() ==> spec_last_with_uid(parsed, #[trigger] out[a]),
        forall|j: int| 0 <= j < parsed.len() ==> has_uid(out, (#[trigger] parsed[j]).uid@),
    ensures
        forall|a: int| 0 <= a < out.len() ==> spec_record_node(hash, recs, #[trigger] out[a]),
        forall|j: int|
            0 <= j < recs.len() ==> has_uid(
                out,
                crate::nodes::spec_string_node_uid(hash, (#[trigger] recs[j]).0),
            ),
{
    assert forall|a: int| 0 <= a < out.len() implies spec_record_node(
        hash,
        recs,
        #[trigger] out[a],
    ) by {
        let j0 = choose|j: int|
            0 <= j < parsed.len() && parsed[j] == out[a] && (forall|k: int|
                j < k < parsed.len() ==> parsed[k].uid@ != out[a].uid@);
        assert(spec_string_node_matches(hash, recs[j0].0, recs[j0].1, out[a]));
        assert forall|k: int|
            j0 < k < recs.len() implies crate::nodes::spec_string_node_uid(hash, recs[k].0)
            != out[a].uid@ by {
            assert(spec_string_node_matches(hash, recs[k].0, recs[k].1, parsed[k]));
        }
    }
    assert forall|j: int| 0 <= j < recs.len() implies has_uid(
        out,
        crate::nodes::spec_string_node_uid(hash, (#[trigger] recs[j]).0),
    ) by {
        assert(spec_string_node_matches(hash, recs[j].0, recs[j].1, parsed[j]));
        assert(has_uid(out, parsed[j].uid@));
    }
}

/// The import function one imports-section record denotes, together with
/// its lowercase library.
pub open spec fn spec_import_plan_of_record(
    hash: Seq<char>,
    rec: JsonValue,
    p: ImportFunctionPlan,
) -> bool {
    let name = spec_get_str(rec, "name"@).unwrap();
    let addr = or_str(spec_get_str(rec, "address"@), "0x0"@);
    &&& p.function.uid@ == crate::nodes::spec_import_addr_uid(hash, spec_lib_lower(rec), name)
    &&& p.function.name@ == name
    &&& p.function.ftype == FunctionType::Import
    &&& p.function.address is Some
    &&& p.function.address.unwrap()@ == addr
    &&& p.library@ == spec_lib_lower(rec)
}

/// The address map a batch's phases build, in phase order: functions first,
/// then import functions, then exports (which never displace an address
/// already claimed).
pub open spec fn spec_batch_address_map(b: ImportBatch) -> Map<Seq<char>, String> {
    spec_register_exports(
        spec_register_functions(
            spec_register_functions(Map::empty(), b.functions@),
            b.import_functions@.map_values(|p: ImportFunctionPlan| p.function),
        ),
        b.export_functions@,
    )
}

/// Everything one import batch resolves to before anything is persisted:
/// the entities of every phase, the resolved call edges, the counts, and
/// the non-fatal errors in the order they arose.
#[derive(Debug)]
pub struct ImportBatch {
    /// The binary record was missing or unparseable; nothing can be
    /// persisted.
    pub fatal: bool,
    /// The owning binary, absent only on a fatal batch.
    pub binary: Option<Binary>,
    /// Functions from the functions phase.
    pub functions: Vec<Function>,
    /// Deduplicated string nodes.
    pub strings: Vec<crate::nodes::StringNode>,
    /// Deduplicated libraries.
    pub libraries: Vec<crate::nodes::Library>,
    /// Synthesized import functions with their libraries.
    pub import_functions: Vec<ImportFunctionPlan>,
    /// Synthesized export functions.
    pub export_functions: Vec<Function>,
    /// Resolved call edges.
    pub calls: Vec<PlannedCall>,
    /// Call records whose endpoints did not resolve: counted, not errors.
    pub skipped_calls: u64,
    /// Non-fatal errors, in phase order.
    pub errors: Vec<String>,
    /// Counts of what the batch creates.
    pub statistics: ImportStatistics,
}

/// Turns one input payload into an import batch, running the phases in
/// order — binary, functions, strings, imports, exports, calls — and
/// resolving call endpoints through the address map the earlier phases
/// build. Only a missing or unparseable binary record is fatal; a clean
/// payload yields no errors at all.
#[verifier::loop_isolation(false)]
pub fn plan_import(data: &JsonValue) -> (r: ImportBatch)
    ensures
        r.fatal == spec_fatal(*data),
        r.fatal ==> r.statistics == (ImportStatistics {
            binaries: 0,
            functions: 0,
            strings: 0,
            libraries: 0,
            calls_relationships: 0,
            total_nodes: 0,
        }) && r.binary is None && r.errors@.len() == 1 && r.errors@[0]@ == spec_fatal_error(*data)
            && r.functions@.len() == 0 && r.strings@.len() == 0 && r.libraries@.len() == 0
            && r.import_functions@.len() == 0 && r.export_functions@.len() == 0 && r.calls@.len()
            == 0 && r.skipped_calls == 0,
        !r.fatal ==> {
            &&& r.binary is Some
            &&& spec_binary_ok(spec_get(*data, "binary_info"@).unwrap(), r.binary.unwrap())
            &&& r.statistics.binaries == 1
            &&& r.statistics.functions == r.functions@.len()
            &&& r.statistics.strings == r.strings@.len()
            &&& r.statistics.libraries == r.libraries@.len()
            &&& r.statistics.calls_relationships == r.calls@.len()
            &&& r.statistics.total_nodes == 0
            &&& match spec_get(*data, "functions"@) {
                Some(fd) => match fd {
                    JsonValue::Arr(items) => r.functions@.len() == items@.len() && (forall|i: int|
                        0 <= i < items@.len() ==> spec_parsed_function(
                            items@[i],
                            r.binary.unwrap().hash@,
                            #[trigger] r.functions@[i],
                        )),
                    _ => r.functions@.len() == 0,
                },
                None => r.functions@.len() == 0,
            }
            &&& forall|a: int, b: int|
                0 <= a < b < r.strings@.len() ==> r.strings@[a].uid@ != r.strings@[b].uid@
            &&& match spec_get(*data, "strings"@) {
                Some(sd) => match sd {
                    JsonValue::Arr(items) => {
                        &&& forall|a: int|
                            0 <= a < r.strings@.len() ==> spec_record_node(
                                r.binary.unwrap().hash@,
                                spec_string_records(items@),
                                #[trigger] r.strings@[a],
                            )
                        &&& forall|j: int|
                            0 <= j < spec_string_records(items@).len() ==> has_uid(
                                r.strings@,
                                crate::nodes::spec_string_node_uid(
                                    r.binary.unwrap().hash@,
                                    (#[trigger] spec_string_records(items@)[j]).0,
                                ),
                            )
                    },
                    _ => r.strings@.len() == 0,
                },
                None => r.strings@.len() == 0,
            }
            &&& match spec_get(*data, "imports"@) {
                Some(id) => match id {
                    JsonValue::Arr(items) => spec_import_error(items@) is None ==> {
                        &&& r.import_functions@.len() == items@.len()
                        &&& forall|i: int|
                            0 <= i < items@.len() ==> spec_import_plan_of_record(
                                r.binary.unwrap().hash@,
                                items@[i],
                                #[trigger] r.import_functions@[i],
                            )
                        &&& forall|a: int, b: int|
                            0 <= a < b < r.libraries@.len() ==> r.libraries@[a].name@
                                != r.libraries@[b].name@
                        &&& forall|j: int|
                            0 <= j < items@.len() ==> has_lib_name(
                                r.libraries@,
                                spec_lib_lower(#[trigger] items@[j]),
                            )
                    },
                    _ => r.import_functions@.len() == 0 && r.libraries@.len() == 0,
                },
                None => r.import_functions@.len() == 0 && r.libraries@.len() == 0,
            }
            &&& match spec_get(*data, "exports"@) {
                Some(ed) => match ed {
                    JsonValue::Arr(items) => spec_export_error(items@) is None
                        ==> spec_export_records_match(
                        r.binary.unwrap().hash@,
                        items@,
                        r.export_functions@,
                    ),
                    _ => r.export_functions@.len() == 0,
                },
                None => r.export_functions@.len() == 0,
            }
            &&& match spec_get(*data, "calls"@) {
                Some(cd) => match cd {
                    JsonValue::Arr(items) => spec_call_error(items@) is None ==> {
                        &&& spec_calls_match(spec_batch_address_map(r), items@, r.calls@)
                        &&& r.skipped_calls + r.calls@.len() == items@.len()
                    },
                    _ => r.calls@.len() == 0 && r.skipped_calls == 0,
                },
                None => r.calls@.len() == 0 && r.skipped_calls == 0,
            }
            &&& (r.errors@.len() == 0 <==> spec_phase_clean(*data))
        },
{
    let zero = ImportStatistics {
        binaries: 0,
        functions: 0,
        strings: 0,
        libraries: 0,
        calls_relationships: 0,
        total_nodes: 0,
    };
    let mut errors: Vec<String> = Vec::new();
    let binary_info = match data.get("binary_info") {
        Some(info) => info,
        None => {
            errors.push(String::from_str("Missing binary_info in data"));
            return ImportBatch {
                fatal: true,
                binary: None,
                functions: Vec::new(),
                strings: Vec::new(),
                libraries: Vec::new(),
                import_functions: Vec::new(),
                export_functions: Vec::new(),
                calls: Vec::new(),
                skipped_calls: 0,
                errors,
                statistics: zero,
            };
        },
    };
    let binary = match parse_binary_info(binary_info) {
        Ok(b) => b,
        Err(e) => {
            let mut msg = String::from_str("Failed to parse binary info: ");
            msg.append(e.as_str());
            proof {
                assert(msg@ =~= spec_fatal_error(*data));
            }
            errors.push(msg);
            return ImportBatch {
                fatal: true,
                binary: None,
                functions: Vec::new(),
                strings: Vec::new(),
                libraries: Vec::new(),
                import_functions: Vec::new(),
                export_functions: Vec::new(),
                calls: Vec::new(),
                skipped_calls: 0,
                errors,
                statistics: zero,
            };
        },
    };
    let binary_hash = binary.hash.clone();
    let mut map = crate::strmap::StrMap::<String>::new();
    let mut functions: Vec<Function> = Vec::new();
    match data.get("functions") {
        Some(fd) => match parse_functions(fd, binary_hash.as_str()) {
            Ok(f) => {
                functions = f;
                register_function_addresses(&mut map, &functions);
            },
            Err(e) => {
                let mut msg = String::from_str("Failed to parse functions: ");
                msg.append(e.as_str());
                errors.push(msg);
            },
        },
        None => {},
    }
    let mut strings: Vec<crate::nodes::StringNode> = Vec::new();
    match data.get("strings") {
        Some(sd) => match parse_strings(sd, binary_hash.as_str()) {
            Ok(nodes) => {
                let ghost parsed = nodes@;
                strings = dedup_strings(nodes);
                proof {
                    let items = spec_get(*data, "strings"@).unwrap()->Arr_0;
                    lemma_strings_bridge(
                        binary_hash@,
                        spec_string_records(items@),
                        parsed,
                        strings@,
                    );
                }
            },
            Err(e) => {
                let mut msg = String::from_str("Failed to parse strings: ");
                msg.append(e.as_str());
                errors.push(msg);
            },
        },
        None => {},
    }
    let mut libraries: Vec<crate::nodes::Library> = Vec::new();
    let mut import_functions: Vec<ImportFunctionPlan> = Vec::new();
    match data.get("imports") {
        Some(id) => match parse_imports(id) {
            Ok((libs, imps)) => {
                libraries = libs;
                import_functions = build_import_functions(&mut map, &imps, binary_hash.as_str());
                proof {
                    let items = spec_get(*data, "imports"@).unwrap()->Arr_0;
                    assert forall|i: int| 0 <= i < items@.len() implies spec_import_plan_of_record(
                        binary_hash@,
                        items@[i],
                        #[trigger] import_functions@[i],
                    ) by {
                        assert(spec_parsed_import(items@[i], imps@[i]));
                        assert(spec_import_plan_matches(
                            binary_hash@,
                            imps@[i],
                            import_functions@[i],
                        ));
                    }
                }
            },
            Err(e) => {
                let mut msg = String::from_str("Failed to parse imports: ");
                msg.append(e.as_str());
                errors.push(msg);
            },
        },
        None => {},
    }
    let mut export_functions: Vec<Function> = Vec::new();
    match data.get("exports") {
        Some(ed) => match parse_exports(ed) {
            Ok(exps) => {
                export_functions = build_export_functions(&exps, binary_hash.as_str(), &mut errors);
                register_export_addresses(&mut map, &export_functions);
                proof {
                    let items = spec_get(*data, "exports"@).unwrap()->Arr_0;
                    lemma_exports_bridge(binary_hash@, items@, exps@, export_functions@);
                    if spec_phase_clean(*data) {
                        assert forall|j: int| 0 <= j < exps@.len() implies spec_parse_address(
                            (#[trigger] exps@[j]).address@,
                        ) is Some by {
                            assert(spec_parsed_export(items@[j], exps@[j]));
                        }
                    }
                    if spec_all_exports_parseable(exps@) {
                        assert forall|j: int| 0 <= j < items@.len() implies spec_parse_address(
                            or_str(
                                spec_get_str(#[trigger] items@[j], "address"@),
                                Seq::empty(),
                            ),
                        ) is Some by {
                            assert(spec_parsed_export(items@[j], exps@[j]));
                            assert(spec_parse_address(exps@[j].address@) is Some);
                        }
                    } else {
                        let j0 = choose|j: int|
                            0 <= j < exps@.len() && spec_parse_address(
                                (#[trigger] exps@[j]).address@,
                            ) is None;
                        assert(spec_some_export_unparseable(exps@));
                    }
                }
            },
            Err(e) => {
                let mut msg = String::from_str("Failed to parse exports: ");
                msg.append(e.as_str());
                errors.push(msg);
            },
        },
        None => {},
    }
    let mut calls: Vec<PlannedCall> = Vec::new();
    let mut skipped_calls: u64 = 0;
    match data.get("calls") {
        Some(cd) => match resolve_calls(cd, &map) {
            Ok((c, s)) => {
                calls = c;
                skipped_calls = s;
            },
            Err(e) => {
                let mut msg = String::from_str("Failed to import calls: ");
                msg.append(e.as_str());
                errors.push(msg);
            },
        },
        None => {},
    }
    let statistics = ImportStatistics {
        binaries: 1,
        functions: functions.len() as u64,
        strings: strings.len() as u64,
        libraries: libraries.len() as u64,
        calls_relationships: calls.len() as u64,
        total_nodes: 0,
    };
    ImportBatch {
        fatal: false,
        binary: Some(binary),
        functions,
        strings,
        libraries,
        import_functions,
        export_functions,
        calls,
        skipped_calls,
        errors,
        statistics,
    }
}

/// Addition that sticks at the largest representable count instead of
/// wrapping.
pub open spec fn sat_add(a: u64, b: u64) -> u64 {
    if a + b > u64::MAX {
        u64::MAX
    } else {
        (a + b) as u64
    }
}

fn sat_add_exec(a: u64, b: u64) -> (r: u64)
    ensures
        r == sat_add(a, b),
{
    if a > u64::MAX - b {
        u64::MAX
    } else {
        a + b
    }
}

/// Seals one batch outcome: success exactly when the error list is empty,
/// and the total node count as the sum of the per-category node counts.
pub fn finalize_import(statistics: ImportStatistics, errors: Vec<String>) -> (r: ImportResult)
    ensures
        r.success == (errors@.len() == 0),
        r.errors == errors,
        r.statistics.binaries == statistics.binaries,
        r.statistics.functions == statistics.functions,
        r.statistics.strings == statistics.strings,
        r.statistics.libraries == statistics.libraries,
        r.statistics.calls_relationships == statistics.calls_relationships,
        r.statistics.total_nodes == sat_add(
            sat_add(sat_add(statistics.binaries, statistics.functions), statistics.strings),
            statistics.libraries,
        ),
{
    let total_nodes = sat_add_exec(
        sat_add_exec(sat_add_exec(statistics.binaries, statistics.functions), statistics.strings),
        statistics.libraries,
    );
    let success = errors.is_empty();
    ImportResult {
        success,
        statistics: ImportStatistics {
            binaries: statistics.binaries,
            functions: statistics.functions,
            strings: statistics.strings,
            libraries: statistics.libraries,
            calls_relationships: statistics.calls_relationships,
            total_nodes,
        },
        errors,
    }
}

} // verus!
