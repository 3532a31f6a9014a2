//! Declaration items, and the recursive builder that turns a declaration
//! (or a nested table field) into one.
use vstd::prelude::*;
use crate::normalize::strings_view;
use crate::registry::{represents, Entry, Registry};
use crate::syntax::{
    find_token_moonwave_comment, moonwave_comment, opt_view, FieldKey, Param, TableField, TypeExpr,
};

verus! {

broadcast use vstd::std_specs::vec::group_vec_axioms, vstd::seq::group_seq_axioms;

/// What kind of declaration an item is.
#[derive(Debug, Clone, Copy, PartialEq, Eq, Structural)]
pub enum DefinitionsItemKind {
    Function,
    Table,
    Property,
    Other,
}

/// An argument of a callable item, with its name where one is written.
pub struct DefinitionsArg {
    pub name: Option<String>,
    pub ty: String,
}

/// One documented declaration with its nested fields.
pub struct DefinitionsItem {
    pub kind: DefinitionsItemKind,
    pub name: String,
    pub type_signature: String,
    pub exported: bool,
    pub args: Option<Vec<DefinitionsArg>>,
    pub children: Vec<DefinitionsItem>,
    pub documentation: Option<String>,
}

/// The kind a type expression's shape gives.
pub open spec fn classify(ty: TypeExpr) -> DefinitionsItemKind {
    match ty {
        TypeExpr::Table { .. } => DefinitionsItemKind::Table,
        TypeExpr::Function { .. } => DefinitionsItemKind::Function,
        TypeExpr::Other { .. } => DefinitionsItemKind::Property,
    }
}

/// The kind of a type expression, inferred from its shape.
pub fn classify_kind(ty: &TypeExpr) -> (r: DefinitionsItemKind)
    ensures
        r == classify(*ty),
{
    match ty {
        TypeExpr::Table { .. } => DefinitionsItemKind::Table,
        TypeExpr::Function { .. } => DefinitionsItemKind::Function,
        TypeExpr::Other { .. } => DefinitionsItemKind::Property,
    }
}

pub open spec fn params_view(p: Seq<Param>) -> Seq<(Option<Seq<char>>, Seq<char>)> {
    p.map_values(|x: Param| (opt_view(x.name), x.ty@))
}

pub open spec fn args_view(a: Option<Vec<DefinitionsArg>>) -> Option<
    Seq<(Option<Seq<char>>, Seq<char>)>,
> {
    match a {
        Some(v) => Some(v@.map_values(|x: DefinitionsArg| (opt_view(x.name), x.ty@))),
        None => None,
    }
}

/// The argument list of a type: a function type's own parameters, or, for a
/// type that names a registered function type, that function's parameters.
pub open spec fn args_of(ty: TypeExpr, m: Map<Seq<char>, Entry>) -> Option<
    Seq<(Option<Seq<char>>, Seq<char>)>,
> {
    match ty {
        TypeExpr::Function { params, .. } => Some(params_view(params@)),
        TypeExpr::Other { text } => if m.contains_key(text@) {
            match m[text@].1 {
                TypeExpr::Function { params, .. } => Some(params_view(params@)),
                _ => None,
            }
        } else {
            None
        },
        TypeExpr::Table { .. } => None,
    }
}

/// The indices of the fields keyed by a plain identifier, in order.
pub open spec fn named_indices(fields: Seq<TableField>) -> Seq<int>
    decreases fields.len(),
{
    if fields.len() == 0 {
        seq![]
    } else {
        let r = named_indices(fields.drop_last());
        match fields.last().key {
            FieldKey::Name(_) => r.push(fields.len() - 1),
            FieldKey::Other(_) => r,
        }
    }
}

/// `item` is the item built for a declaration named `name` with this comment,
/// type and kind: its children mirror, in order, the identifier-keyed fields
/// of a table type, each with the comment found on its key.
pub open spec fn builds(
    item: DefinitionsItem,
    m: Map<Seq<char>, Entry>,
    declares: Seq<Seq<char>>,
    name: Seq<char>,
    comment: Option<Seq<char>>,
    ty: TypeExpr,
    kind: DefinitionsItemKind,
) -> bool
    decreases ty,
{
    &&& item.kind == kind
    &&& item.name@ == name
    &&& item.type_signature@ == ty.text_view()
    &&& item.exported == declares.contains(name)
    &&& opt_view(item.documentation) == comment
    &&& args_view(item.args) == args_of(ty, m)
    &&& match ty {
        TypeExpr::Table { fields, .. } => {
            &&& item.children@.len() == named_indices(fields@).len()
            &&& forall|i: int|
                0 <= i < item.children@.len() ==> {
                    let j = #[trigger] named_indices(fields@)[i];
                    &&& 0 <= j < fields@.len()
                    &&& match fields@[j].key {
                        FieldKey::Name(tok) => builds(
                            item.children@[i],
                            m,
                            declares,
                            tok.text@,
                            moonwave_comment(tok.leading_trivia@),
                            fields@[j].value,
                            classify(fields@[j].value),
                        ),
                        FieldKey::Other(_) => false,
                    }
                }
        },
        _ => item.children@.len() == 0,
    }
}

/// Whether `name` is one of `declares`.
pub fn is_declared(declares: &Vec<String>, name: &String) -> (r: bool)
    ensures
        r == strings_view(declares@).contains(name@),
{
    let mut i: usize = 0;
    while i < declares.len()
        invariant
            i <= declares@.len(),
            forall|j: int| 0 <= j < i ==> #[trigger] declares@[j]@ != name@,
        decreases declares@.len() - i,
    {
        if declares[i] == *name {
            assert(strings_view(declares@)[i as int] == name@);
            return true;
        }
        i = i + 1;
    }
    assert forall|j: int| 0 <= j < strings_view(declares@).len() implies strings_view(declares@)[j]
        != name@ by {
        assert(declares@[j]@ != name@);
    }
    false
}

fn params_to_args(params: &Vec<Param>) -> (r: Vec<DefinitionsArg>)
    ensures
        args_view(Some(r)) == Some(params_view(params@)),
{
    let mut out: Vec<DefinitionsArg> = Vec::new();
    let mut i: usize = 0;
    while i < params.len()
        invariant
            i <= params@.len(),
            out@.len() == i,
            forall|j: int|
                0 <= j < i ==> opt_view(#[trigger] out@[j].name) == opt_view(params@[j].name)
                    && out@[j].ty@ == params@[j].ty@,
        decreases params@.len() - i,
    {
        out.push(DefinitionsArg { name: params[i].name.clone(), ty: params[i].ty.clone() });
        i = i + 1;
    }
    assert(out@.map_values(|x: DefinitionsArg| (opt_view(x.name), x.ty@)) =~= params_view(
        params@,
    ));
    out
}

/// The argument list of `ty`, resolving a name through the registry once.
pub(crate) fn normalize_arguments(
    ty: &TypeExpr,
    reg: &Registry,
    Ghost(m): Ghost<Map<Seq<char>, Entry>>,
) -> (r: Option<Vec<DefinitionsArg>>)
    requires
        represents(reg.entries@, m),
    ensures
        args_view(r) == args_of(*ty, m),
{
    match ty {
        TypeExpr::Function { params, .. } => Some(params_to_args(params)),
        TypeExpr::Other { text } => {
            match reg.position(text) {
                Some(i) => {
                    assert(m.contains_key(reg.entries@[i as int].name@));
                    match &reg.entries[i].ty {
                        TypeExpr::Function { params, .. } => Some(params_to_args(params)),
                        _ => None,
                    }
                },
                None => {
                    proof {
                        if m.contains_key(text@) {
                            let k = choose|k: int|
                                0 <= k < reg.entries@.len() && reg.entries@[k].name@ == text@;
                        }
                    }
                    None
                },
            }
        },
        TypeExpr::Table { .. } => None,
    }
}

/// Builds the item for one declaration, recursing into the identifier-keyed
/// fields of a table type; the kind is inferred where none is given.
pub(crate) fn build_item(
    reg: &Registry,
    declares: &Vec<String>,
    name: &String,
    comment: Option<String>,
    ty: &TypeExpr,
    kind: Option<DefinitionsItemKind>,
    Ghost(m): Ghost<Map<Seq<char>, Entry>>,
) -> (r: DefinitionsItem)
    requires
        represents(reg.entries@, m),
    ensures
        builds(
            r,
            m,
            strings_view(declares@),
            name@,
            opt_view(comment),
            *ty,
            match kind {
                Some(k) => k,
                None => classify(*ty),
            },
        ),
    decreases ty,
{
    let k = match kind {
        Some(k) => k,
        None => classify_kind(ty),
    };
    let exported = is_declared(declares, name);
    let args = normalize_arguments(ty, reg, Ghost(m));
    let mut children: Vec<DefinitionsItem> = Vec::new();
    match ty {
        TypeExpr::Table { fields, .. } => {
            let mut idx: usize = 0;
            assert(fields@.subrange(0, 0) =~= Seq::<TableField>::empty());
            while idx < fields.len()
                invariant
                    represents(reg.entries@, m),
                    match *ty {
                        TypeExpr::Table { fields: f, .. } => f == *fields,
                        _ => false,
                    },
                    idx <= fields@.len(),
                    children@.len() == named_indices(fields@.subrange(0, idx as int)).len(),
                    forall|i: int|
                        0 <= i < children@.len() ==> {
                            let j = #[trigger] named_indices(fields@.subrange(0, idx as int))[i];
                            &&& 0 <= j < idx
                            &&& match fields@[j].key {
                                FieldKey::Name(tok) => builds(
                                    children@[i],
                                    m,
                                    strings_view(declares@),
                                    tok.text@,
                                    moonwave_comment(tok.leading_trivia@),
                                    fields@[j].value,
                                    classify(fields@[j].value),
                                ),
                                FieldKey::Other(_) => false,
                            }
                        },
                decreases fields@.len() - idx,
            {
                let ghost before = named_indices(fields@.subrange(0, idx as int));
                assert(fields@.subrange(0, idx + 1).drop_last() =~= fields@.subrange(0, idx as int));
                assert(fields@.subrange(0, idx + 1).last() == fields@[idx as int]);
                match &fields[idx].key {
                    FieldKey::Name(tok) => {
                        let c = find_token_moonwave_comment(tok);
                        let child = build_item(
                            reg,
                            declares,
                            &tok.text,
                            c,
                            &fields[idx].value,
                            None,
                            Ghost(m),
                        );
                        children.push(child);
                    },
                    FieldKey::Other(_) => {},
                }
                idx = idx + 1;
            }
            assert(fields@.subrange(0, fields@.len() as int) =~= fields@);
        },
        _ => {},
    }
    DefinitionsItem {
        kind: k,
        name: name.clone(),
        type_signature: ty.text().clone(),
        exported,
        args,
        children,
        documentation: comment,
    }
}

} // verus!
