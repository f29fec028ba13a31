use vstd::prelude::*;
use vstd::string::StringSliceAdditionalSpecFns;
use crate::deps::{string_views, DependencySet};
use crate::hashing::{blob_hash_hex, git_blob_sha1_hex};

verus! {

/// The stem that std's `Path::file_stem` finds in a path, as text.
pub uninterp spec fn file_stem_of(path: Seq<char>) -> Option<Seq<char>>;

/// A name in heck's snake case.
pub uninterp spec fn snake_case_of(s: Seq<char>) -> Seq<char>;

/// A name in heck's kebab case.
pub uninterp spec fn kebab_case_of(s: Seq<char>) -> Seq<char>;

/// Relies on std's `Path::file_stem`: the stem depends on the path's text
/// alone, and a stem cut from UTF-8 text at `/` or `.` is UTF-8 text itself.
#[verifier::external_body]
fn file_stem(path: &str) -> (r: Option<String>)
    ensures
        r is Some <==> file_stem_of(path@) is Some,
        r is Some ==> r->Some_0@ == file_stem_of(path@)->Some_0,
{
    match std::path::Path::new(path).file_stem() {
        Some(stem) => stem.to_str().map(String::from),
        None => None,
    }
}

/// Relies on heck's `ToSnakeCase::to_snake_case`: the result depends on the
/// text alone.
#[verifier::external_body]
fn to_snake_case(s: &str) -> (r: String)
    ensures
        r@ == snake_case_of(s@),
{
    heck::ToSnakeCase::to_snake_case(s)
}

/// Relies on heck's `ToKebabCase::to_kebab_case`: the result depends on the
/// text alone.
#[verifier::external_body]
fn to_kebab_case(s: &str) -> (r: String)
    ensures
        r@ == kebab_case_of(s@),
{
    heck::ToKebabCase::to_kebab_case(s)
}

/// The first eight characters, or all of them when there are fewer.
pub open spec fn prefix8(s: Seq<char>) -> Seq<char> {
    if s.len() <= 8 {
        s
    } else {
        s.take(8)
    }
}

/// The first eight characters of the text, or all of it when shorter.
pub fn first8(s: &str) -> (r: String)
    ensures
        r@ == prefix8(s@),
{
    let n = s.unicode_len();
    if n <= 8 {
        s.to_owned()
    } else {
        s.substring_char(0, 8).to_owned()
    }
}

/// A source file as the pipeline sees it, with the hashes that identify it.
#[derive(Debug, Clone)]
pub struct SourceUnit {
    pub raw_bytes: Vec<u8>,
    pub display_name: String,
    pub content_hash: String,
    pub path_hash: String,
}

impl SourceUnit {
    /// Whether this unit is the one for `body` read from `path`.
    pub open spec fn describes(&self, path: &str, body: &str) -> bool {
        &&& file_stem_of(path@) is Some
        &&& self.display_name@ == file_stem_of(path@)->Some_0
        &&& self.raw_bytes@ == body.spec_bytes()
        &&& self.content_hash@ == blob_hash_hex(body.spec_bytes())
        &&& self.path_hash@ == blob_hash_hex(path.spec_bytes())
    }

    /// The unit for `body` read from `path` (the resolved path), or `None`
    /// when the path names no file. The content hash is the blob id of the
    /// body, the path hash that of the path's bytes.
    pub fn new(path: &str, body: &str) -> (r: Option<SourceUnit>)
        ensures
            r is Some <==> file_stem_of(path@) is Some,
            r is Some ==> r->Some_0.describes(path, body),
    {
        match file_stem(path) {
            Some(display_name) => {
                let raw_bytes = body.as_bytes_vec();
                let content_hash = git_blob_sha1_hex(body.as_bytes());
                let path_hash = git_blob_sha1_hex(path.as_bytes());
                Some(SourceUnit { raw_bytes, display_name, content_hash, path_hash })
            },
            None => None,
        }
    }
}

impl SourceUnit {
    /// Whether this unit is the one for an inline `body`: its identity comes
    /// from the content alone, the content hash standing in for the path hash,
    /// and its name is `eval_<first eight digits of the content hash>`.
    pub open spec fn describes_inline(&self, body: &str) -> bool {
        &&& self.raw_bytes@ == body.spec_bytes()
        &&& self.content_hash@ == blob_hash_hex(body.spec_bytes())
        &&& self.path_hash@ == self.content_hash@
        &&& self.display_name@ == "eval_"@ + prefix8(self.content_hash@)
    }

    /// The unit for an inline program, which has no file of its own: the same
    /// body gets the same unit wherever it is run from.
    pub fn inline(body: &str) -> (r: SourceUnit)
        ensures
            r.describes_inline(body),
    {
        let raw_bytes = body.as_bytes_vec();
        let content_hash = git_blob_sha1_hex(body.as_bytes());
        let path_hash = content_hash.clone();
        let hash8 = first8(content_hash.as_str());
        let display_name = "eval_".to_owned().concat(hash8.as_str());
        SourceUnit { raw_bytes, display_name, content_hash, path_hash }
    }
}

/// The package name of a source: its kebab-cased stem, `-`, and the first
/// eight digits of its path hash.
pub open spec fn package_name_of(display_name: Seq<char>, path_hash: Seq<char>) -> Seq<char> {
    kebab_case_of(display_name) + seq!['-'] + prefix8(path_hash)
}

/// The version of a source's package: `0.0.0-` and the first eight digits of
/// its content hash.
pub open spec fn version_tag_of(content_hash: Seq<char>) -> Seq<char> {
    "0.0.0-"@ + prefix8(content_hash)
}

/// A package name from a kebab-cased stem and a path hash:
/// `<stem>-<first eight digits of the hash>`.
pub fn package_name(kebab_stem: &str, path_hash: &str) -> (r: String)
    ensures
        r@ == kebab_stem@ + seq!['-'] + prefix8(path_hash@),
{
    let hash8 = first8(path_hash);
    proof {
        reveal_strlit("-");
        assert("-"@ =~= seq!['-']);
    }
    kebab_stem.to_owned().concat("-").concat(hash8.as_str())
}

/// A package version from a content hash: `0.0.0-<first eight digits>`.
pub fn version_tag(content_hash: &str) -> (r: String)
    ensures
        r@ == version_tag_of(content_hash@),
{
    let hash8 = first8(content_hash);
    "0.0.0-".to_owned().concat(hash8.as_str())
}

/// The build description generated for one source.
#[derive(Debug, Clone)]
pub struct BuildManifest {
    pub package_name: String,
    pub version_tag: String,
    pub binary_name: String,
    pub entry_relative_path: String,
    pub dependencies: Vec<String>,
}

impl BuildManifest {
    /// Whether this manifest is the one synthesized for `unit` and `dependencies`.
    pub open spec fn synthesized_from(&self, unit: SourceUnit, dependencies: Set<Seq<char>>) -> bool {
        &&& self.package_name@ == package_name_of(unit.display_name@, unit.path_hash@)
        &&& self.version_tag@ == version_tag_of(unit.content_hash@)
        &&& self.binary_name@ == snake_case_of(unit.display_name@)
        &&& self.entry_relative_path@ == snake_case_of(unit.display_name@) + ".rs"@
        &&& string_views(self.dependencies@).to_set() == dependencies
        &&& string_views(self.dependencies@).no_duplicates()
    }
}

/// The manifest for a source: package `<kebab stem>-<path hash[..8]>`,
/// version `0.0.0-<content hash[..8]>`, one binary named after the
/// snake-cased stem, built from `<snake stem>.rs`, and each dependency at
/// any version.
pub fn synthesize_manifest(unit: &SourceUnit, dependencies: &DependencySet) -> (r: BuildManifest)
    requires
        dependencies.wf(),
    ensures
        r.synthesized_from(*unit, dependencies@),
{
    let kebab = to_kebab_case(unit.display_name.as_str());
    let snake = to_snake_case(unit.display_name.as_str());
    let package_name = package_name(kebab.as_str(), unit.path_hash.as_str());
    let version_tag = version_tag(unit.content_hash.as_str());
    let entry_relative_path = snake.clone().concat(".rs");
    let deps = dependencies.to_vec();
    BuildManifest {
        package_name,
        version_tag,
        binary_name: snake,
        entry_relative_path,
        dependencies: deps,
    }
}

/// A string as toml_edit writes it as a TOML value, quotes included.
pub uninterp spec fn toml_string_of(s: Seq<char>) -> Seq<char>;

/// A name as toml_edit writes it as a TOML key: bare when it can be, quoted
/// otherwise.
pub uninterp spec fn toml_key_of(s: Seq<char>) -> Seq<char>;

/// Relies on toml_edit's `Formatted::<String>::display_repr`: the default
/// encoding of a string value, which depends on the text alone.
#[verifier::external_body]
fn toml_string(s: &str) -> (r: String)
    ensures
        r@ == toml_string_of(s@),
{
    toml_edit::Formatted::new(s.to_owned()).display_repr().into_owned()
}

/// Relies on toml_edit's `Key::display_repr`: the default encoding of a key,
/// which depends on the text alone.
#[verifier::external_body]
fn toml_key(s: &str) -> (r: String)
    ensures
        r@ == toml_key_of(s@),
{
    toml_edit::Key::new(s).display_repr().into_owned()
}

/// One `name = "*"` line per dependency, in order.
pub open spec fn dependency_lines(names: Seq<Seq<char>>) -> Seq<char>
    decreases names.len(),
{
    if names.len() == 0 {
        Seq::empty()
    } else {
        dependency_lines(names.drop_last()) + toml_key_of(names.last()) + " = \"*\"\n"@
    }
}

/// The manifest as the toolchain reads it: the package table, one binary
/// target, and every dependency at any version.
pub open spec fn manifest_text(
    package_name: Seq<char>,
    version_tag: Seq<char>,
    binary_name: Seq<char>,
    entry_relative_path: Seq<char>,
    dependencies: Seq<Seq<char>>,
) -> Seq<char> {
    "[package]\nautobins = false\nedition = \"2021\"\nname = "@ + toml_string_of(package_name)
        + "\nversion = "@ + toml_string_of(version_tag) + "\n\n[[bin]]\nname = "@
        + toml_string_of(binary_name) + "\npath = "@ + toml_string_of(entry_relative_path)
        + "\n\n[dependencies]\n"@ + dependency_lines(dependencies)
}

/// The text of the manifest file.
pub fn render_manifest(manifest: &BuildManifest) -> (r: String)
    ensures
        r@ == manifest_text(
            manifest.package_name@,
            manifest.version_tag@,
            manifest.binary_name@,
            manifest.entry_relative_path@,
            string_views(manifest.dependencies@),
        ),
{
    let name = toml_string(manifest.package_name.as_str());
    let version = toml_string(manifest.version_tag.as_str());
    let bin = toml_string(manifest.binary_name.as_str());
    let path = toml_string(manifest.entry_relative_path.as_str());
    let mut text = "[package]\nautobins = false\nedition = \"2021\"\nname = ".to_owned().concat(
        name.as_str(),
    ).concat("\nversion = ").concat(version.as_str()).concat("\n\n[[bin]]\nname = ").concat(
        bin.as_str(),
    ).concat("\npath = ").concat(path.as_str()).concat("\n\n[dependencies]\n");
    let ghost header = text@;
    let ghost names = string_views(manifest.dependencies@);
    let mut i: usize = 0;
    assert(names.take(0) =~= Seq::<Seq<char>>::empty());
    while i < manifest.dependencies.len()
        invariant
            i <= manifest.dependencies@.len(),
            names == string_views(manifest.dependencies@),
            text@ == header + dependency_lines(names.take(i as int)),
        decreases manifest.dependencies@.len() - i,
    {
        let key = toml_key(manifest.dependencies[i].as_str());
        text.append(key.as_str());
        text.append(" = \"*\"\n");
        proof {
            assert(names.take(i + 1).drop_last() =~= names.take(i as int));
            assert(text@ =~= header + dependency_lines(names.take(i + 1)));
        }
        i += 1;
    }
    assert(names.take(i as int) =~= names);
    text
}

/// Identity is a function of the bytes: the same source read from the same
/// path always gets the same display name, content hash and path hash.
pub proof fn lemma_source_identity_deterministic(
    u1: SourceUnit,
    u2: SourceUnit,
    path: &str,
    body: &str,
)
    requires
        u1.describes(path, body),
        u2.describes(path, body),
    ensures
        u1.display_name@ == u2.display_name@,
        u1.content_hash@ == u2.content_hash@,
        u1.path_hash@ == u2.path_hash@,
{
}

/// Building the same source from the same path again gives the same package
/// name and version, so the toolchain sees the same package and can reuse
/// what it built.
pub proof fn lemma_manifest_identity_deterministic(
    u1: SourceUnit,
    u2: SourceUnit,
    m1: BuildManifest,
    m2: BuildManifest,
    path: &str,
    body: &str,
    dependencies: Set<Seq<char>>,
)
    requires
        u1.describes(path, body),
        u2.describes(path, body),
        m1.synthesized_from(u1, dependencies),
        m2.synthesized_from(u2, dependencies),
    ensures
        m1.package_name@ == m2.package_name@,
        m1.version_tag@ == m2.version_tag@,
        m1.binary_name@ == m2.binary_name@,
{
}

/// An inline program's identity depends on its text alone: the same body
/// always gets the same name and hashes, whichever directory it runs from.
pub proof fn lemma_inline_identity_is_content_only(u1: SourceUnit, u2: SourceUnit, body: &str)
    requires
        u1.describes_inline(body),
        u2.describes_inline(body),
    ensures
        u1.display_name@ == u2.display_name@,
        u1.content_hash@ == u2.content_hash@,
        u1.path_hash@ == u2.path_hash@,
{
}

} // verus!
