//! The entity model: binaries, functions, strings, libraries, imports and
//! exports, together with deterministic key derivation for each kind.
//!
//! Every identifier is a pure function of the entity's identity — binary
//! hash and canonical address for functions, library and symbol name for
//! imports, binary hash and content hash for strings — so re-importing the
//! same data always derives the same keys.

use vstd::prelude::*;
use vstd::string::StringExecFns;

use crate::addr::format_address;
use crate::addr::spec_format_address;
use crate::text::chars_of;
use crate::text::lower_of;
use crate::text::lowercase;
use crate::text::push_char;
use crate::text::string_of_chars;
use crate::uid::spec_sha256_hex;
use crate::uid::sha256_hex;

verus! {

/// The format of an analyzed binary.
#[derive(Debug, Clone, Copy, PartialEq, Eq, Structural)]
pub enum BinaryFormat {
    /// Windows PE (Portable Executable).
    PE,
    /// Linux/Unix ELF (Executable and Linkable Format).
    Elf,
    /// macOS Mach-O.
    MachO,
}

/// The role of a function inside or around a binary.
#[derive(Debug, Clone, Copy, PartialEq, Eq, Structural)]
pub enum FunctionType {
    /// Defined inside the binary.
    Internal,
    /// Imported from an external library.
    Import,
    /// Exported by the binary for other modules.
    Export,
    /// A jump stub used for indirect calls or delayed binding.
    Thunk,
}

/// One analyzed executable file, keyed by its content hash.
#[derive(Debug, Clone)]
pub struct Binary {
    /// Content hash of the file, typically SHA-256.
    pub hash: String,
    /// File name.
    pub filename: String,
    /// Full path to the file.
    pub file_path: String,
    /// Size in bytes.
    pub file_size: u64,
    /// File format.
    pub format: BinaryFormat,
    /// Target architecture.
    pub arch: String,
}

/// A code unit inside or referenced by a binary.
#[derive(Debug, Clone)]
pub struct Function {
    /// Derived identifier, unique per function.
    pub uid: String,
    /// Function name.
    pub name: String,
    /// Function role.
    pub ftype: FunctionType,
    /// Canonical address, absent for plain imports.
    pub address: Option<String>,
    /// Size in bytes, when known.
    pub size: Option<u64>,
}

/// The key of an internal or exported function:
/// `{binary_hash}:{canonical_address}`.
pub open spec fn spec_internal_uid(hash: Seq<char>, address: u64) -> Seq<char> {
    hash + seq![':'] + spec_format_address(address)
}

/// The key of an imported function with no in-binary address:
/// `imp:{library_lowercase}:{symbol_name}`, shared across binaries.
pub open spec fn spec_import_uid(library: Seq<char>, name: Seq<char>) -> Seq<char> {
    seq!['i', 'm', 'p', ':'] + lower_of(library) + seq![':'] + name
}

/// The key of an imported function whose import-table address is known:
/// `imp:{binary_hash}:{library_lowercase}:{symbol_name}`, scoped to the
/// binary because the import address table slot differs per binary.
pub open spec fn spec_import_addr_uid(
    hash: Seq<char>,
    library_lower: Seq<char>,
    name: Seq<char>,
) -> Seq<char> {
    seq!['i', 'm', 'p', ':'] + hash + seq![':'] + library_lower + seq![':'] + name
}

impl Function {
    /// A function discovered inside the binary, keyed by binary hash and
    /// canonical address.
    pub fn create_internal(binary_hash: &str, address: u64, name: &str, is_export: bool) -> (f:
        Function)
        ensures
            f.uid@ == spec_internal_uid(binary_hash@, address),
            f.name@ == name@,
            f.ftype == (if is_export {
                FunctionType::Export
            } else {
                FunctionType::Internal
            }),
            f.address is Some && f.address.unwrap()@ == spec_format_address(address),
            f.size is None,
    {
        let hex_addr = format_address(address);
        let mut uid = String::from_str(binary_hash);
        push_char(&mut uid, ':');
        uid.append(hex_addr.as_str());
        proof {
            assert(uid@ =~= spec_internal_uid(binary_hash@, address));
        }
        Function {
            uid,
            name: String::from_str(name),
            ftype: if is_export {
                FunctionType::Export
            } else {
                FunctionType::Internal
            },
            address: Some(hex_addr),
            size: None,
        }
    }

    /// An imported function with no in-binary address; the key is global
    /// across binaries so the same API from the same library shares one
    /// identity.
    pub fn create_import(library: &str, name: &str) -> (f: Function)
        ensures
            f.uid@ == spec_import_uid(library@, name@),
            f.name@ == name@,
            f.ftype == FunctionType::Import,
            f.address is None,
            f.size is None,
    {
        let lib_normalized = lowercase(library);
        let mut uid = String::new();
        push_char(&mut uid, 'i');
        push_char(&mut uid, 'm');
        push_char(&mut uid, 'p');
        push_char(&mut uid, ':');
        uid.append(lib_normalized.as_str());
        push_char(&mut uid, ':');
        uid.append(name);
        proof {
            assert(uid@ =~= spec_import_uid(library@, name@));
        }
        Function {
            uid,
            name: String::from_str(name),
            ftype: FunctionType::Import,
            address: None,
            size: None,
        }
    }

    /// An imported function whose import-table address is known; the key is
    /// scoped to the binary. The library name must already be lowercased.
    pub fn create_import_with_address(
        binary_hash: &str,
        library_lower: &str,
        name: &str,
        address: &str,
    ) -> (f: Function)
        ensures
            f.uid@ == spec_import_addr_uid(binary_hash@, library_lower@, name@),
            f.name@ == name@,
            f.ftype == FunctionType::Import,
            f.address is Some && f.address.unwrap()@ == address@,
            f.size is None,
    {
        let mut uid = String::new();
        push_char(&mut uid, 'i');
        push_char(&mut uid, 'm');
        push_char(&mut uid, 'p');
        push_char(&mut uid, ':');
        uid.append(binary_hash);
        push_char(&mut uid, ':');
        uid.append(library_lower);
        push_char(&mut uid, ':');
        uid.append(name);
        proof {
            assert(uid@ =~= spec_import_addr_uid(binary_hash@, library_lower@, name@));
        }
        Function {
            uid,
            name: String::from_str(name),
            ftype: FunctionType::Import,
            address: Some(String::from_str(address)),
            size: None,
        }
    }
}

/// The given characters with every trailing NUL removed, the normalization
/// applied to string values before hashing.
pub open spec fn strip_nul(s: Seq<char>) -> Seq<char>
    decreases s.len(),
{
    if s.len() > 0 && s.last() == '\0' {
        strip_nul(s.drop_last())
    } else {
        s
    }
}

proof fn lemma_strip_nul_at(s: Seq<char>, k: int)
    requires
        0 <= k <= s.len(),
        forall|j: int| k <= j < s.len() ==> s[j] == '\0',
        k == 0 || s[k - 1] != '\0',
    ensures
        strip_nul(s) == s.subrange(0, k),
    decreases s.len(),
{
    if k == s.len() {
        if s.len() == 0 {
            assert(s.subrange(0, 0) =~= s);
        } else {
            assert(s.subrange(0, k) =~= s);
        }
    } else {
        let t = s.drop_last();
        lemma_strip_nul_at(t, k);
        assert(t.subrange(0, k) =~= s.subrange(0, k));
    }
}

/// A literal string found in a binary, keyed by the binary's hash and the
/// content hash of the normalized value.
#[derive(Debug, Clone)]
pub struct StringNode {
    /// The string's content, with trailing NULs stripped.
    pub value: String,
    /// Derived identifier.
    pub uid: String,
    /// Address at which the string was observed, when known.
    pub address: Option<String>,
}

/// The key of a string node:
/// `str:{binary_hash}:{sha256_hex(normalized_value)}`.
pub open spec fn spec_string_node_uid(hash: Seq<char>, value: Seq<char>) -> Seq<char> {
    seq!['s', 't', 'r', ':'] + hash + seq![':'] + spec_sha256_hex(strip_nul(value))
}

impl StringNode {
    /// Normalizes the value (trailing NULs stripped) and derives the key
    /// from the binary hash and the normalized content.
    pub fn new(binary_hash: &str, value: String, address: Option<String>) -> (n: StringNode)
        ensures
            n.value@ == strip_nul(value@),
            n.uid@ == spec_string_node_uid(binary_hash@, value@),
            n.address == address,
    {
        let chars = chars_of(value.as_str());
        let mut hi: usize = chars.len();
        while hi > 0 && chars[hi - 1] == '\0'
            invariant
                hi <= chars@.len(),
                forall|j: int| hi <= j < chars@.len() ==> chars@[j] == '\0',
            decreases hi,
        {
            hi = hi - 1;
        }
        proof {
            lemma_strip_nul_at(chars@, hi as int);
        }
        let mut kept: Vec<char> = Vec::new();
        let mut i: usize = 0;
        while i < hi
            invariant
                i <= hi <= chars@.len(),
                kept@ == chars@.subrange(0, i as int),
            decreases hi - i,
        {
            kept.push(chars[i]);
            i = i + 1;
            proof {
                assert(kept@ =~= chars@.subrange(0, i as int));
            }
        }
        let normalized = string_of_chars(&kept);
        let hex = sha256_hex(normalized.as_str());
        let mut uid = String::new();
        push_char(&mut uid, 's');
        push_char(&mut uid, 't');
        push_char(&mut uid, 'r');
        push_char(&mut uid, ':');
        uid.append(binary_hash);
        push_char(&mut uid, ':');
        uid.append(hex.as_str());
        proof {
            assert(uid@ =~= spec_string_node_uid(binary_hash@, value@));
        }
        StringNode { value: normalized, uid, address }
    }
}

/// One observed occurrence of a string at an address.
#[derive(Debug, Clone)]
pub struct StringOccurrence {
    /// Key of the string node this occurrence refers to.
    pub string_uid: String,
    /// Address of the occurrence, when known.
    pub address: Option<String>,
}

impl StringOccurrence {
    pub fn new(string_uid: String, address: Option<String>) -> (o: StringOccurrence)
        ensures
            o.string_uid == string_uid,
            o.address == address,
    {
        StringOccurrence { string_uid, address }
    }
}

/// An external library, keyed by its lowercase name.
#[derive(Debug, Clone)]
pub struct Library {
    /// Library name, always lowercase at rest.
    pub name: String,
}

impl Library {
    pub fn create(name: &str) -> (l: Library)
        ensures
            l.name@ == lower_of(name@),
    {
        Library { name: lowercase(name) }
    }
}

/// An import record from the input: transient, converted into a `Function`
/// of variant `Import` and then discarded.
#[derive(Debug, Clone)]
pub struct Import {
    /// Imported symbol name.
    pub name: String,
    /// Import address table slot, as given by the extractor.
    pub address: String,
    /// Library the symbol comes from, as given by the extractor.
    pub library: String,
}

/// An export record from the input: transient, converted into a `Function`
/// of variant `Export` and then discarded.
#[derive(Debug, Clone)]
pub struct Export {
    /// Exported symbol name.
    pub name: String,
    /// Address of the exported symbol.
    pub address: String,
}

/// Key derivation is deterministic: identical binary hash and address always
/// yield the identical function key.
pub proof fn lemma_function_key_deterministic(h1: Seq<char>, a1: u64, h2: Seq<char>, a2: u64)
    requires
        h1 == h2,
        a1 == a2,
    ensures
        spec_internal_uid(h1, a1) == spec_internal_uid(h2, a2),
{
}

/// String keys ignore incidental trailing-NUL differences: two values with
/// the same normalized content always yield the identical string key under
/// the same binary.
pub proof fn lemma_string_key_normalized(h: Seq<char>, v1: Seq<char>, v2: Seq<char>)
    requires
        strip_nul(v1) == strip_nul(v2),
    ensures
        spec_string_node_uid(h, v1) == spec_string_node_uid(h, v2),
{
}

} // verus!
