//! The registry of top-level declarations, kept sorted by name with one
//! entry per name, and the scanner that fills it from parsed statements.
use vstd::prelude::*;
use vstd::string::*;
use crate::syntax::{find_token_moonwave_comment, moonwave_comment, opt_view, Statement, TypeExpr};
use crate::text::lex_lt;

verus! {

/// One top-level declaration: its name, documentation comment and type.
pub struct RawDeclaration {
    pub name: String,
    pub comment: Option<String>,
    pub ty: TypeExpr,
}

/// What the registry holds for a name: its comment and its type.
pub type Entry = (Option<Seq<char>>, TypeExpr);

/// The declarations of `stmts[k..]`; where a name is declared more than
/// once, the last declaration wins.
pub open spec fn scan_from(stmts: Seq<Statement>, k: int) -> Map<Seq<char>, Entry>
    decreases stmts.len() - k,
{
    if k < 0 || k >= stmts.len() {
        Map::empty()
    } else {
        let m = scan_from(stmts, k + 1);
        match stmts[k] {
            Statement::TypeDeclaration { keyword, name, ty } => if m.contains_key(name@) {
                m
            } else {
                m.insert(name@, (moonwave_comment(keyword.leading_trivia@), ty))
            },
            Statement::Other => m,
        }
    }
}

/// The declarations of all of `stmts`.
pub open spec fn scan(stmts: Seq<Statement>) -> Map<Seq<char>, Entry> {
    scan_from(stmts, 0)
}

/// Names strictly increase along `e`.
pub open spec fn sorted_names(e: Seq<RawDeclaration>) -> bool {
    forall|i: int, j: int| 0 <= i < j < e.len() ==> lex_lt(#[trigger] e[i].name@, #[trigger] e[j].name@)
}

/// `e` lists exactly the entries of `m`, sorted by name.
pub open spec fn represents(e: Seq<RawDeclaration>, m: Map<Seq<char>, Entry>) -> bool {
    &&& sorted_names(e)
    &&& forall|i: int| 0 <= i < e.len() ==> #[trigger] m.contains_key(e[i].name@) && m[e[i].name@]
        == (opt_view(e[i].comment), e[i].ty)
    &&& forall|k: Seq<char>| #[trigger] m.contains_key(k) ==> exists|i: int|
        0 <= i < e.len() && e[i].name@ == k
}

pub proof fn lemma_lex_irreflexive(a: Seq<char>)
    ensures
        !lex_lt(a, a),
    decreases a.len(),
{
    if a.len() > 0 {
        lemma_lex_irreflexive(a.drop_first());
    }
}

pub proof fn lemma_lex_total(a: Seq<char>, b: Seq<char>)
    ensures
        a != b ==> lex_lt(a, b) || lex_lt(b, a),
    decreases a.len(),
{
    if a.len() > 0 && b.len() > 0 && a[0] == b[0] {
        lemma_lex_total(a.drop_first(), b.drop_first());
        if a.drop_first() == b.drop_first() {
            assert(a =~= seq![a[0]] + a.drop_first());
            assert(b =~= seq![b[0]] + b.drop_first());
        }
    } else if a.len() == 0 && b.len() == 0 {
        assert(a =~= b);
    }
}

pub proof fn lemma_lex_transitive(a: Seq<char>, b: Seq<char>, c: Seq<char>)
    requires
        lex_lt(a, b),
        lex_lt(b, c),
    ensures
        lex_lt(a, c),
    decreases a.len(),
{
    if a.len() > 0 && b.len() > 0 && c.len() > 0 && a[0] == b[0] && b[0] == c[0] {
        lemma_lex_transitive(a.drop_first(), b.drop_first(), c.drop_first());
    }
}

/// Strict lexicographic order of two strings.
pub fn name_lt(a: &String, b: &String) -> (r: bool)
    ensures
        r == lex_lt(a@, b@),
{
    let sa = a.as_str();
    let sb = b.as_str();
    let la = sa.unicode_len();
    let lb = sb.unicode_len();
    let mut i: usize = 0;
    assert(a@.subrange(0, la as int) =~= a@);
    assert(b@.subrange(0, lb as int) =~= b@);
    while i < la && i < lb
        invariant
            sa@ == a@,
            sb@ == b@,
            la == a@.len(),
            lb == b@.len(),
            i <= la,
            i <= lb,
            lex_lt(a@, b@) == lex_lt(a@.subrange(i as int, la as int), b@.subrange(i as int, lb as int)),
        decreases la - i,
    {
        let ca = sa.get_char(i);
        let cb = sb.get_char(i);
        if ca != cb {
            return ca < cb;
        }
        assert(a@.subrange(i as int, la as int).drop_first() =~= a@.subrange(i + 1, la as int));
        assert(b@.subrange(i as int, lb as int).drop_first() =~= b@.subrange(i + 1, lb as int));
        i = i + 1;
    }
    i < lb
}

/// Top-level declarations by name.
pub struct Registry {
    pub entries: Vec<RawDeclaration>,
}

impl Registry {
    pub fn new() -> (r: Registry)
        ensures
            r.entries@.len() == 0,
    {
        Registry { entries: Vec::new() }
    }

    /// The index of the entry named `name`, if there is one.
    pub fn position(&self, name: &String) -> (r: Option<usize>)
        ensures
            r matches Some(i) ==> i < self.entries@.len() && self.entries@[i as int].name@ == name@,
            r is None ==> forall|i: int|
                0 <= i < self.entries@.len() ==> #[trigger] self.entries@[i].name@ != name@,
    {
        let mut i: usize = 0;
        while i < self.entries.len()
            invariant
                i <= self.entries@.len(),
                forall|j: int| 0 <= j < i ==> #[trigger] self.entries@[j].name@ != name@,
            decreases self.entries@.len() - i,
        {
            if self.entries[i].name == *name {
                return Some(i);
            }
            i = i + 1;
        }
        None
    }

    /// Adds a declaration whose name is not yet in the registry, in order.
    pub(crate) fn insert_new(&mut self, d: RawDeclaration, Ghost(m): Ghost<Map<Seq<char>, Entry>>)
        requires
            represents(old(self).entries@, m),
            !m.contains_key(d.name@),
        ensures
            represents(
                final(self).entries@,
                m.insert(d.name@, (opt_view(d.comment), d.ty)),
            ),
    {
        let mut p: usize = 0;
        while p < self.entries.len() && name_lt(&self.entries[p].name, &d.name)
            invariant
                p <= self.entries@.len(),
                forall|j: int| 0 <= j < p ==> lex_lt(#[trigger] self.entries@[j].name@, d.name@),
            decreases self.entries@.len() - p,
        {
            p = p + 1;
        }
        let ghost e = self.entries@;
        let ghost name = d.name@;
        let ghost entry = (opt_view(d.comment), d.ty);
        proof {
            if p < e.len() {
                assert(m.contains_key(e[p as int].name@));
                lemma_lex_total(e[p as int].name@, name);
            }
        }
        self.entries.insert(p, d);
        let ghost e2 = self.entries@;
        let ghost m2 = m.insert(name, entry);
        proof {
            assert forall|q: int| p <= q < e.len() implies lex_lt(name, #[trigger] e[q].name@) by {
                if q > p {
                    lemma_lex_transitive(name, e[p as int].name@, e[q].name@);
                }
            }
            assert forall|i: int, j: int| 0 <= i < j < e2.len() implies lex_lt(
                #[trigger] e2[i].name@,
                #[trigger] e2[j].name@,
            ) by {
                if j < p {
                } else if j == p {
                } else if i < p {
                    assert(lex_lt(name, e[j - 1].name@));
                    lemma_lex_transitive(e[i].name@, name, e[j - 1].name@);
                } else if i == p {
                    assert(lex_lt(name, e[j - 1].name@));
                } else {
                }
            }
            assert forall|i: int| 0 <= i < e2.len() implies #[trigger] m2.contains_key(e2[i].name@)
                && m2[e2[i].name@] == (opt_view(e2[i].comment), e2[i].ty) by {
                if i < p {
                    assert(e2[i] == e[i]);
                    assert(m.contains_key(e[i].name@));
                } else if i > p {
                    assert(e2[i] == e[i - 1]);
                    assert(m.contains_key(e[i - 1].name@));
                }
            }
            assert forall|k: Seq<char>| #[trigger] m2.contains_key(k) implies exists|i: int|
                0 <= i < e2.len() && e2[i].name@ == k by {
                if k == name {
                    assert(e2[p as int].name@ == k);
                } else {
                    assert(m.contains_key(k));
                    let i = choose|i: int| 0 <= i < e.len() && e[i].name@ == k;
                    if i < p {
                        assert(e2[i].name@ == k);
                    } else {
                        assert(e2[i + 1].name@ == k);
                    }
                }
            }
        }
    }
}

/// Collects the top-level type declarations of `stmts` into a registry.
pub fn scan_statements(stmts: Vec<Statement>) -> (r: Registry)
    ensures
        represents(r.entries@, scan(stmts@)),
{
    let ghost all = stmts@;
    let mut rest = stmts;
    let mut reg = Registry::new();
    while rest.len() > 0
        invariant
            rest@.len() <= all.len(),
            rest@ == all.subrange(0, rest@.len() as int),
            represents(reg.entries@, scan_from(all, rest@.len() as int)),
        decreases rest@.len(),
    {
        let ghost k = rest@.len() - 1;
        let stmt = rest.pop().unwrap();
        assert(stmt == all[k]);
        let ghost m = scan_from(all, k + 1);
        match stmt {
            Statement::TypeDeclaration { keyword, name, ty } => {
                let comment = find_token_moonwave_comment(&keyword);
                match reg.position(&name) {
                    Some(_) => {},
                    None => {
                        proof {
                            if m.contains_key(name@) {
                                let i = choose|i: int|
                                    0 <= i < reg.entries@.len() && reg.entries@[i].name@ == name@;
                            }
                        }
                        reg.insert_new(RawDeclaration { name, comment, ty }, Ghost(m));
                    },
                }
            },
            Statement::Other => {},
        }
    }
    reg
}

/// The name a statement declares, if it is a type declaration.
pub open spec fn decl_name(s: Statement) -> Option<Seq<char>> {
    match s {
        Statement::TypeDeclaration { name, .. } => Some(name@),
        Statement::Other => None,
    }
}

pub proof fn lemma_scan_from_domain(stmts: Seq<Statement>, k: int, n: Seq<char>)
    requires
        0 <= k,
    ensures
        scan_from(stmts, k).contains_key(n) <==> exists|i: int|
            k <= i < stmts.len() && #[trigger] decl_name(stmts[i]) == Some(n),
    decreases stmts.len() - k,
{
    if k < stmts.len() {
        lemma_scan_from_domain(stmts, k + 1, n);
        let m = scan_from(stmts, k + 1);
        if decl_name(stmts[k]) == Some(n) {
            assert(scan_from(stmts, k).contains_key(n));
        } else {
            assert(scan_from(stmts, k).contains_key(n) == m.contains_key(n));
            if exists|i: int| k <= i < stmts.len() && #[trigger] decl_name(stmts[i]) == Some(n) {
                let i = choose|i: int| k <= i < stmts.len() && #[trigger] decl_name(stmts[i]) == Some(n);
                assert(i > k);
            }
        }
    }
}

/// Where a name is declared more than once, the registry holds its last
/// declaration, and that name only once.
pub proof fn law_last_declaration_wins(stmts: Seq<Statement>, j: int, e: Seq<RawDeclaration>)
    requires
        0 <= j < stmts.len(),
        stmts[j] is TypeDeclaration,
        forall|k: int| j < k < stmts.len() ==> #[trigger] decl_name(stmts[k]) != decl_name(stmts[j]),
        represents(e, scan(stmts)),
    ensures
        ({
            let n = stmts[j]->TypeDeclaration_name@;
            &&& scan(stmts).contains_key(n)
            &&& scan(stmts)[n] == (
                moonwave_comment(stmts[j]->TypeDeclaration_keyword.leading_trivia@),
                stmts[j]->TypeDeclaration_ty,
            )
            &&& exists|i: int| 0 <= i < e.len() && e[i].name@ == n
            &&& forall|i1: int, i2: int|
                0 <= i1 < e.len() && 0 <= i2 < e.len() && e[i1].name@ == n && e[i2].name@ == n
                    ==> i1 == i2
        }),
{
    let n = stmts[j]->TypeDeclaration_name@;
    lemma_scan_from_domain(stmts, j + 1, n);
    lemma_scan_keeps(stmts, j, 0, n);
    assert(scan(stmts).contains_key(n));
    assert forall|i1: int, i2: int|
        0 <= i1 < e.len() && 0 <= i2 < e.len() && e[i1].name@ == n && e[i2].name@ == n
            implies i1 == i2 by {
        if i1 < i2 {
            lemma_lex_irreflexive(n);
            assert(lex_lt(e[i1].name@, e[i2].name@));
        } else if i2 < i1 {
            lemma_lex_irreflexive(n);
            assert(lex_lt(e[i2].name@, e[i1].name@));
        }
    }
}

/// Scanning earlier statements keeps an entry that a later one made.
proof fn lemma_scan_keeps(stmts: Seq<Statement>, j: int, k: int, n: Seq<char>)
    requires
        0 <= k <= j < stmts.len(),
        !scan_from(stmts, j + 1).contains_key(n),
        decl_name(stmts[j]) == Some(n),
    ensures
        scan_from(stmts, k).contains_key(n),
        scan_from(stmts, k)[n] == scan_from(stmts, j)[n],
    decreases j - k,
{
    if k < j {
        lemma_scan_keeps(stmts, j, k + 1, n);
    }
}

} // verus!
