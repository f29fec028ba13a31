use vstd::prelude::*;

verus! {

#[verifier::external_type_specification]
#[verifier::external_body]
pub struct ExPathBuf(std::path::PathBuf);

#[verifier::external_type_specification]
#[verifier::external_body]
pub struct ExSynFile(syn::File);

#[verifier::external_type_specification]
#[verifier::external_body]
pub struct ExSynError(syn::Error);

/// Whether the text parses as a whole Rust source file.
pub uninterp spec fn parses_as_file(source: Seq<char>) -> bool;

/// Relies on syn's `parse_file`: whether the text parses as a file depends on
/// the text alone.
#[verifier::external_body]
fn parse_file(source: &str) -> (r: Result<syn::File, syn::Error>)
    ensures
        r is Ok <==> parses_as_file(source@),
{
    syn::parse_file(source)
}

/// A source that does not parse, with the parser's diagnostic.
pub struct ParseError {
    pub diagnostic: syn::Error,
}

/// A program to build: the directory it runs in and its root module.
pub struct Input {
    working_dir: std::path::PathBuf,
    entry_point: Module,
}

/// A module, known by its path, its name or its parsed source.
pub struct Module {
    path: Option<std::path::PathBuf>,
    name: Option<String>,
    content: Option<ModuleData>,
}

/// The parsed source of a module and the modules it declares.
pub struct ModuleData {
    source: String,
    ast: syn::File,
    children: Vec<Module>,
}

impl Input {
    pub closed spec fn spec_working_dir(&self) -> std::path::PathBuf {
        self.working_dir
    }

    pub closed spec fn spec_entry_point(&self) -> Module {
        self.entry_point
    }

    /// A program rooted at the module in `entry_point`.
    pub fn new(working_dir: std::path::PathBuf, entry_point: std::path::PathBuf) -> (r: Input)
        ensures
            r.spec_working_dir() == working_dir,
            r.spec_entry_point().spec_path() == Some(entry_point),
            r.spec_entry_point().spec_name() is None,
            r.spec_entry_point().spec_content() is None,
    {
        Input { working_dir, entry_point: Module::from_path(entry_point) }
    }
}

impl Module {
    pub closed spec fn spec_path(&self) -> Option<std::path::PathBuf> {
        self.path
    }

    pub closed spec fn spec_name(&self) -> Option<Seq<char>> {
        match self.name {
            Some(n) => Some(n@),
            None => None,
        }
    }

    pub closed spec fn spec_content(&self) -> Option<ModuleData> {
        self.content
    }

    /// A module known only by its file.
    pub fn from_path(path: std::path::PathBuf) -> (r: Module)
        ensures
            r.spec_path() == Some(path),
            r.spec_name() is None,
            r.spec_content() is None,
    {
        Module { path: Some(path), name: None, content: None }
    }

    /// A module known only by its name.
    pub fn from_name(name: String) -> (r: Module)
        ensures
            r.spec_path() is None,
            r.spec_name() == Some(name@),
            r.spec_content() is None,
    {
        Module { path: None, name: Some(name), content: None }
    }

    /// A module made from its source text; fails when the text does not parse.
    pub fn try_from_source(source: &str) -> (r: Result<Module, ParseError>)
        ensures
            r is Ok <==> parses_as_file(source@),
            r is Ok ==> r->Ok_0.spec_path() is None && r->Ok_0.spec_name() is None
                && r->Ok_0.spec_content() is Some && r->Ok_0.spec_content()->Some_0.spec_source()
                == source@,
    {
        match ModuleData::from_str(source) {
            Ok(content) => Ok(Module { path: None, name: None, content: Some(content) }),
            Err(e) => Err(e),
        }
    }
}

impl ModuleData {
    pub closed spec fn spec_source(&self) -> Seq<char> {
        self.source@
    }

    pub closed spec fn spec_children(&self) -> Seq<Module> {
        self.children@
    }

    pub closed spec fn spec_ast(&self) -> syn::File {
        self.ast
    }

    /// The parsed file.
    pub fn ast(&self) -> (r: &syn::File)
        ensures
            *r == self.spec_ast(),
    {
        &self.ast
    }

    /// Parses a module's source; fails with the parser's diagnostic when the
    /// text is not a Rust file. The module starts with no children.
    pub fn from_str(source: &str) -> (r: Result<ModuleData, ParseError>)
        ensures
            r is Ok <==> parses_as_file(source@),
            r is Ok ==> r->Ok_0.spec_source() == source@ && r->Ok_0.spec_children().len() == 0,
    {
        match parse_file(source) {
            Ok(ast) => {
                let children: Vec<Module> = Vec::new();
                let source = source.to_owned();
                Ok(ModuleData { source, ast, children })
            },
            Err(diagnostic) => Err(ParseError { diagnostic }),
        }
    }
}

} // verus!
