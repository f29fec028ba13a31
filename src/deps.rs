use vstd::prelude::*;

verus! {

/// An import tree, as far as inference reads it.
#[derive(Debug)]
pub enum UseTree {
    /// `ident::…`: a path that goes on past its first segment.
    Path(String),
    /// `ident`: a single name.
    Name(String),
    /// `ident as alias`.
    Rename(String, String),
    /// `*`.
    Glob,
    /// `{a, b, …}`.
    Group(Vec<UseTree>),
}

/// A syntax node that can name an outside crate.
#[derive(Debug)]
pub enum SyntaxNode {
    /// A path in code; `::first_segment::…` when `leading_colon` holds.
    QualifiedPath { leading_colon: bool, first_segment: String },
    /// A `use` item; `use ::tree;` when `leading_colon` holds.
    Import { leading_colon: bool, tree: UseTree },
    /// `extern crate ident;`, renamed or not.
    ExternCrate { ident: String },
}

/// The crate roots an import tree names at its top: the first identifier of
/// each path, name or rename, looking into groups and passing over globs.
pub open spec fn tree_roots(t: UseTree) -> Set<Seq<char>>
    decreases t,
{
    match t {
        UseTree::Path(ident) => set![ident@],
        UseTree::Name(ident) => set![ident@],
        UseTree::Rename(ident, _) => set![ident@],
        UseTree::Glob => Set::empty(),
        UseTree::Group(items) => trees_roots(items@),
    }
}

/// The crate roots a list of import trees names.
pub open spec fn trees_roots(ts: Seq<UseTree>) -> Set<Seq<char>>
    decreases ts,
{
    if ts.len() == 0 {
        Set::empty()
    } else {
        trees_roots(ts.drop_last()).union(tree_roots(ts.last()))
    }
}

/// The crate roots one node names. Only globally rooted paths and imports
/// name a crate; the others go through names already in scope.
pub open spec fn node_roots(n: SyntaxNode) -> Set<Seq<char>> {
    match n {
        SyntaxNode::QualifiedPath { leading_colon, first_segment } => if leading_colon {
            set![first_segment@]
        } else {
            Set::empty()
        },
        SyntaxNode::Import { leading_colon, tree } => if leading_colon {
            tree_roots(tree)
        } else {
            Set::empty()
        },
        SyntaxNode::ExternCrate { ident } => set![ident@],
    }
}

/// Every crate root the nodes name.
pub open spec fn candidate_roots(nodes: Seq<SyntaxNode>) -> Set<Seq<char>>
    decreases nodes.len(),
{
    if nodes.len() == 0 {
        Set::empty()
    } else {
        candidate_roots(nodes.drop_last()).union(node_roots(nodes.last()))
    }
}

/// The language's own crates, which are never dependencies.
pub open spec fn builtin_roots() -> Set<Seq<char>> {
    set!["core"@, "alloc"@, "std"@, "proc_macro"@, "test"@]
}

/// The dependencies a source needs: the roots it names, less the built-in ones.
pub open spec fn inferred_roots(nodes: Seq<SyntaxNode>) -> Set<Seq<char>> {
    candidate_roots(nodes).difference(builtin_roots())
}

/// The text of each string.
pub open spec fn string_views(v: Seq<String>) -> Seq<Seq<char>> {
    v.map_values(|s: String| s@)
}

/// A set of crate names, with no name twice.
#[derive(Debug, Clone)]
pub struct DependencySet {
    roots: Vec<String>,
}

impl View for DependencySet {
    type V = Set<Seq<char>>;

    closed spec fn view(&self) -> Set<Seq<char>> {
        self.names().to_set()
    }
}

impl DependencySet {
    /// The names in the order they were added.
    pub closed spec fn names(&self) -> Seq<Seq<char>> {
        string_views(self.roots@)
    }

    /// No name is held twice.
    pub closed spec fn wf(&self) -> bool {
        self.names().no_duplicates()
    }

    /// The empty set.
    pub fn new() -> (r: DependencySet)
        ensures
            r.wf(),
            r@ == Set::<Seq<char>>::empty(),
    {
        let r = DependencySet { roots: Vec::new() };
        assert(r.names() =~= Seq::<Seq<char>>::empty());
        r
    }

    /// Whether the name is in the set.
    pub fn contains(&self, name: &String) -> (r: bool)
        ensures
            r == self@.contains(name@),
    {
        let mut i: usize = 0;
        while i < self.roots.len()
            invariant
                i <= self.roots@.len(),
                forall|j: int| 0 <= j < i ==> self.names()[j] != name@,
            decreases self.roots@.len() - i,
        {
            if self.roots[i] == *name {
                assert(self.names()[i as int] == name@);
                return true;
            }
            i += 1;
        }
        assert(!self.names().contains(name@));
        false
    }

    /// Adds the name unless it is there already.
    pub fn insert(&mut self, name: String)
        requires
            old(self).wf(),
        ensures
            final(self).wf(),
            final(self)@ == old(self)@.insert(name@),
    {
        if !self.contains(&name) {
            let ghost before = self.names();
            let ghost added = name@;
            self.roots.push(name);
            proof {
                assert(self.names() =~= before.push(added));
                before.lemma_push_to_set_commute(added);
            }
        } else {
            assert(self@ =~= old(self)@.insert(name@));
        }
    }

    /// The number of names in the set.
    pub fn len(&self) -> (r: usize)
        requires
            self.wf(),
        ensures
            r == self@.len(),
    {
        proof {
            self.names().unique_seq_to_set();
        }
        self.roots.len()
    }

    /// The names, in the order they were first added.
    pub fn to_vec(&self) -> (r: Vec<String>)
        ensures
            string_views(r@).to_set() == self@,
            string_views(r@) == self.names(),
            self.wf() ==> string_views(r@).no_duplicates(),
    {
        let mut r: Vec<String> = Vec::new();
        let mut i: usize = 0;
        while i < self.roots.len()
            invariant
                i <= self.roots@.len(),
                r@.len() == i,
                string_views(r@) == self.names().take(i as int),
            decreases self.roots@.len() - i,
        {
            let name = self.roots[i].clone();
            assert(name@ == self.names()[i as int]);
            r.push(name);
            proof {
                assert(string_views(r@) =~= self.names().take(i + 1));
            }
            i += 1;
        }
        assert(self.names().take(i as int) =~= self.names());
        r
    }
}

/// Whether the name is one of the language's own crates.
fn is_builtin_root(name: &String) -> (r: bool)
    ensures
        r == builtin_roots().contains(name@),
{
    let core = "core".to_owned();
    let alloc = "alloc".to_owned();
    let std_root = "std".to_owned();
    let proc_macro = "proc_macro".to_owned();
    let test = "test".to_owned();
    *name == core || *name == alloc || *name == std_root || *name == proc_macro || *name == test
}

fn collect_tree(t: &UseTree, roots: &mut DependencySet)
    requires
        old(roots).wf(),
    ensures
        final(roots).wf(),
        final(roots)@ == old(roots)@.union(tree_roots(*t)),
    decreases t,
{
    match t {
        UseTree::Path(ident) => {
            roots.insert(ident.clone());
            assert(final(roots)@ =~= old(roots)@.union(tree_roots(*t)));
        },
        UseTree::Name(ident) => {
            roots.insert(ident.clone());
            assert(final(roots)@ =~= old(roots)@.union(tree_roots(*t)));
        },
        UseTree::Rename(ident, _) => {
            roots.insert(ident.clone());
            assert(final(roots)@ =~= old(roots)@.union(tree_roots(*t)));
        },
        UseTree::Glob => {
            assert(final(roots)@ =~= old(roots)@.union(tree_roots(*t)));
        },
        UseTree::Group(items) => {
            let mut k: usize = 0;
            assert(items@.take(0) =~= Seq::<UseTree>::empty());
            assert(old(roots)@.union(Set::empty()) =~= old(roots)@);
            while k < items.len()
                invariant
                    k <= items@.len(),
                    *t is Group,
                    (*t)->Group_0 == *items,
                    roots.wf(),
                    roots@ == old(roots)@.union(trees_roots(items@.take(k as int))),
                decreases items@.len() - k,
            {
                proof {
                    vstd::std_specs::vec::axiom_vec_index_decreases(*items, k as int);
                    assert(decreases_to!(*t => (*t)->Group_0));
                    assert(decreases_to!(*t => items[k as int]));
                }
                collect_tree(&items[k], roots);
                proof {
                    assert(items@.take(k + 1).drop_last() =~= items@.take(k as int));
                    assert(roots@ =~= old(roots)@.union(trees_roots(items@.take(k + 1))));
                }
                k += 1;
            }
            assert(items@.take(k as int) =~= items@);
        },
    }
}

fn collect_node(n: &SyntaxNode, roots: &mut DependencySet)
    requires
        old(roots).wf(),
    ensures
        final(roots).wf(),
        final(roots)@ == old(roots)@.union(node_roots(*n)),
{
    match n {
        SyntaxNode::QualifiedPath { leading_colon, first_segment } => {
            if *leading_colon {
                roots.insert(first_segment.clone());
            }
        },
        SyntaxNode::Import { leading_colon, tree } => {
            if *leading_colon {
                collect_tree(tree, roots);
            }
        },
        SyntaxNode::ExternCrate { ident } => {
            roots.insert(ident.clone());
        },
    }
    assert(final(roots)@ =~= old(roots)@.union(node_roots(*n)));
}

/// The crates a source depends on, from the nodes of its syntax tree: the
/// roots of its globally rooted paths and imports and of its `extern crate`
/// items, less the language's own crates.
pub fn infer_dependencies(nodes: &Vec<SyntaxNode>) -> (r: DependencySet)
    ensures
        r.wf(),
        r@ == inferred_roots(nodes@),
{
    let mut candidates = DependencySet::new();
    let mut i: usize = 0;
    assert(nodes@.take(0) =~= Seq::<SyntaxNode>::empty());
    while i < nodes.len()
        invariant
            i <= nodes@.len(),
            candidates.wf(),
            candidates@ == candidate_roots(nodes@.take(i as int)),
        decreases nodes@.len() - i,
    {
        collect_node(&nodes[i], &mut candidates);
        proof {
            assert(nodes@.take(i + 1).drop_last() =~= nodes@.take(i as int));
        }
        i += 1;
    }
    assert(nodes@.take(i as int) =~= nodes@);
    let names = candidates.to_vec();
    let mut r = DependencySet::new();
    let mut j: usize = 0;
    while j < names.len()
        invariant
            j <= names@.len(),
            r.wf(),
            string_views(names@).to_set() == candidates@,
            r@ == string_views(names@).take(j as int).to_set().difference(builtin_roots()),
        decreases names@.len() - j,
    {
        let ghost seen = string_views(names@);
        if !is_builtin_root(&names[j]) {
            r.insert(names[j].clone());
        }
        proof {
            assert(seen.take(j + 1) =~= seen.take(j as int).push(seen[j as int]));
            seen.take(j as int).lemma_push_to_set_commute(seen[j as int]);
            assert(r@ =~= seen.take(j + 1).to_set().difference(builtin_roots()));
        }
        j += 1;
    }
    assert(string_views(names@).take(j as int) =~= string_views(names@));
    r
}

/// A source whose every named root is one of the language's own crates (or
/// that names none) needs no dependency.
pub proof fn lemma_builtin_only_needs_nothing(nodes: Seq<SyntaxNode>)
    requires
        candidate_roots(nodes).subset_of(builtin_roots()),
    ensures
        inferred_roots(nodes) == Set::<Seq<char>>::empty(),
{
    assert(inferred_roots(nodes) =~= Set::<Seq<char>>::empty());
}

} // verus!
