//! The definitions parser: holds the registry and the ambient-declared names
//! of the last parsed source, and drains them into declaration items.
use vstd::prelude::*;
use crate::items::{build_item, builds, classify, DefinitionsItem};
use crate::normalize::{strings_view, PreparedSource};
use crate::registry::{
    decl_name, lemma_scan_from_domain, represents, scan, scan_statements, Entry, RawDeclaration,
    Registry,
};
use crate::syntax::{opt_view, Statement};

verus! {

/// `items` are the items built, in order, for the declarations `e`, with the
/// registry contents `m` and the ambient-declared names `declares`.
pub open spec fn items_built(
    items: Seq<DefinitionsItem>,
    e: Seq<RawDeclaration>,
    m: Map<Seq<char>, Entry>,
    declares: Seq<Seq<char>>,
) -> bool {
    &&& items.len() == e.len()
    &&& forall|i: int|
        0 <= i < items.len() ==> builds(
            #[trigger] items[i],
            m,
            declares,
            e[i].name@,
            opt_view(e[i].comment),
            e[i].ty,
            classify(e[i].ty),
        )
}

/// Turns parsed definition sources into declaration items.
pub struct DefinitionsParser {
    registry: Registry,
    declares: Vec<String>,
    found: Ghost<Map<Seq<char>, Entry>>,
}

impl DefinitionsParser {
    /// The registered declarations, sorted by name.
    pub closed spec fn entries(&self) -> Seq<RawDeclaration> {
        self.registry.entries@
    }

    /// The registered declarations by name.
    pub closed spec fn found(&self) -> Map<Seq<char>, Entry> {
        self.found@
    }

    /// The names declared with the ambient syntax.
    pub closed spec fn declared(&self) -> Seq<Seq<char>> {
        strings_view(self.declares@)
    }

    pub closed spec fn wf(&self) -> bool {
        represents(self.registry.entries@, self.found@)
    }

    /// `after` is what `drain` leaves of `before`, and `items` what it returns.
    pub open spec fn drained(before: Self, after: Self, items: Seq<DefinitionsItem>) -> bool {
        &&& items_built(items, before.entries(), before.found(), before.declared())
        &&& after.wf()
        &&& after.entries().len() == 0
        &&& after.found() == Map::<Seq<char>, Entry>::empty()
        &&& after.declared().len() == 0
    }

    /// An empty parser.
    pub fn new() -> (r: Self)
        ensures
            r.wf(),
            r.entries().len() == 0,
            r.found() == Map::<Seq<char>, Entry>::empty(),
            r.declared().len() == 0,
    {
        let r = DefinitionsParser {
            registry: Registry::new(),
            declares: Vec::new(),
            found: Ghost(Map::empty()),
        };
        assert(strings_view(r.declares@) =~= Seq::<Seq<char>>::empty());
        r
    }

    /// Replaces the parser's state with the declarations of `statements`,
    /// the statements that the grammar parser read from `source.text`.
    pub fn parse(&mut self, source: PreparedSource, statements: Vec<Statement>)
        ensures
            final(self).wf(),
            represents(final(self).entries(), scan(statements@)),
            final(self).found() == scan(statements@),
            final(self).declared() == strings_view(source.declares@),
    {
        let ghost stmts = statements@;
        let registry = scan_statements(statements);
        self.registry = registry;
        self.declares = source.declares;
        self.found = Ghost(scan(stmts));
    }

    /// Builds one item per registered declaration, in order of name, and
    /// empties the parser.
    pub fn drain(&mut self) -> (r: Vec<DefinitionsItem>)
        requires
            old(self).wf(),
        ensures
            Self::drained(*old(self), *final(self), r@),
    {
        let mut items: Vec<DefinitionsItem> = Vec::new();
        let mut i: usize = 0;
        while i < self.registry.entries.len()
            invariant
                self.wf(),
                i <= self.entries().len(),
                items@.len() == i,
                forall|k: int|
                    0 <= k < i ==> builds(
                        #[trigger] items@[k],
                        self.found(),
                        self.declared(),
                        self.entries()[k].name@,
                        opt_view(self.entries()[k].comment),
                        self.entries()[k].ty,
                        classify(self.entries()[k].ty),
                    ),
            decreases self.entries().len() - i,
        {
            let d = &self.registry.entries[i];
            let item = build_item(
                &self.registry,
                &self.declares,
                &d.name,
                d.comment.clone(),
                &d.ty,
                None,
                Ghost(self.found@),
            );
            items.push(item);
            i = i + 1;
        }
        self.registry = Registry::new();
        self.declares = Vec::new();
        self.found = Ghost(Map::empty());
        assert(strings_view(self.declares@) =~= Seq::<Seq<char>>::empty());
        items
    }
}

/// The names that the type declarations of `stmts` declare.
pub open spec fn declared_names(stmts: Seq<Statement>) -> Set<Seq<char>> {
    Set::new(|n: Seq<char>| exists|i: int| 0 <= i < stmts.len() && #[trigger] decl_name(stmts[i]) == Some(n))
}

/// The names of `items`.
pub open spec fn item_names(items: Seq<DefinitionsItem>) -> Set<Seq<char>> {
    Set::new(|n: Seq<char>| exists|i: int| 0 <= i < items.len() && #[trigger] items[i].name@ == n)
}

/// Where the source used no ambient declaration, the drained items are
/// named exactly as the source's top-level declarations, and none of them
/// is exported.
pub proof fn law_plain_source(
    stmts: Seq<Statement>,
    p: DefinitionsParser,
    q: DefinitionsParser,
    items: Seq<DefinitionsItem>,
)
    requires
        represents(p.entries(), scan(stmts)),
        p.found() == scan(stmts),
        p.declared().len() == 0,
        DefinitionsParser::drained(p, q, items),
    ensures
        forall|i: int| 0 <= i < items.len() ==> !(#[trigger] items[i]).exported,
        item_names(items) == declared_names(stmts),
{
    let e = p.entries();
    assert forall|i: int| 0 <= i < items.len() implies !(#[trigger] items[i]).exported by {
        assert(builds(items[i], p.found(), p.declared(), e[i].name@, opt_view(e[i].comment), e[i].ty, classify(e[i].ty)));
        assert(!p.declared().contains(e[i].name@));
    }
    assert forall|n: Seq<char>| item_names(items).contains(n) <==> declared_names(stmts).contains(n) by {
        lemma_scan_from_domain(stmts, 0, n);
        if item_names(items).contains(n) {
            let i = choose|i: int| 0 <= i < items.len() && #[trigger] items[i].name@ == n;
            assert(builds(items[i], p.found(), p.declared(), e[i].name@, opt_view(e[i].comment), e[i].ty, classify(e[i].ty)));
            assert(scan(stmts).contains_key(e[i].name@));
        }
        if declared_names(stmts).contains(n) {
            assert(scan(stmts).contains_key(n));
            let i = choose|i: int| 0 <= i < e.len() && e[i].name@ == n;
            assert(builds(items[i], p.found(), p.declared(), e[i].name@, opt_view(e[i].comment), e[i].ty, classify(e[i].ty)));
            assert(items[i].name@ == n);
        }
    }
    assert(item_names(items) =~= declared_names(stmts));
}

/// Draining twice in a row: the second drain returns nothing.
pub proof fn law_drain_twice(
    p0: DefinitionsParser,
    p1: DefinitionsParser,
    p2: DefinitionsParser,
    first: Seq<DefinitionsItem>,
    second: Seq<DefinitionsItem>,
)
    requires
        DefinitionsParser::drained(p0, p1, first),
        DefinitionsParser::drained(p1, p2, second),
    ensures
        second.len() == 0,
        p2.entries().len() == 0,
{
}

} // verus!
