//! The parsed shape of definition source: tokens with their leading trivia,
//! type expressions and top-level statements.
use vstd::prelude::*;

verus! {

/// A piece of trivia that precedes a token.
pub enum Trivia {
    /// A block-delimited comment: the delimiter level that the tokenizer
    /// reports for it, and its body.
    BlockComment { blocks: u64, comment: String },
    /// Whitespace, a line comment, or any other trivia, as written.
    Other(String),
}

/// A token with the trivia written before it.
pub struct Token {
    pub text: String,
    pub leading_trivia: Vec<Trivia>,
}

/// A parameter of a function type, with its name where one is written.
pub struct Param {
    pub name: Option<String>,
    pub ty: String,
}

/// The key of a table type's field.
pub enum FieldKey {
    /// A plain identifier.
    Name(Token),
    /// A computed or otherwise non-identifier key.
    Other(String),
}

/// A field of a table type.
pub struct TableField {
    pub key: FieldKey,
    pub value: TypeExpr,
}

/// A type expression; each variant keeps its source text.
pub enum TypeExpr {
    Table { text: String, fields: Vec<TableField> },
    Function { text: String, params: Vec<Param> },
    Other { text: String },
}

impl TypeExpr {
    pub open spec fn text_view(&self) -> Seq<char> {
        match self {
            TypeExpr::Table { text, .. } => text@,
            TypeExpr::Function { text, .. } => text@,
            TypeExpr::Other { text } => text@,
        }
    }

    /// The type's source text.
    pub fn text(&self) -> (r: &String)
        ensures
            r@ == self.text_view(),
    {
        match self {
            TypeExpr::Table { text, .. } => text,
            TypeExpr::Function { text, .. } => text,
            TypeExpr::Other { text } => text,
        }
    }
}

/// A top-level statement.
pub enum Statement {
    /// `type Name = T` or `export type Name = T`; `keyword` is the first
    /// token of the statement (`type` or `export`).
    TypeDeclaration { keyword: Token, name: String, ty: TypeExpr },
    /// Anything else.
    Other,
}

/// The body of the documentation comment nearest to the end of `trivia`:
/// the last block comment whose delimiter level is one.
pub open spec fn moonwave_comment(trivia: Seq<Trivia>) -> Option<Seq<char>>
    decreases trivia.len(),
{
    if trivia.len() == 0 {
        None
    } else {
        match trivia.last() {
            Trivia::BlockComment { blocks, comment } => if blocks == 1 {
                Some(comment@)
            } else {
                moonwave_comment(trivia.drop_last())
            },
            Trivia::Other(_) => moonwave_comment(trivia.drop_last()),
        }
    }
}

pub open spec fn opt_view(o: Option<String>) -> Option<Seq<char>> {
    match o {
        Some(s) => Some(s@),
        None => None,
    }
}

/// The documentation comment attached to `token`, if any.
pub fn find_token_moonwave_comment(token: &Token) -> (r: Option<String>)
    ensures
        opt_view(r) == moonwave_comment(token.leading_trivia@),
{
    let trivia = &token.leading_trivia;
    let mut i = trivia.len();
    assert(trivia@.subrange(0, i as int) =~= trivia@);
    while i > 0
        invariant
            trivia == &token.leading_trivia,
            i <= trivia@.len(),
            moonwave_comment(trivia@) == moonwave_comment(trivia@.subrange(0, i as int)),
        decreases i,
    {
        assert(trivia@.subrange(0, i as int).drop_last() =~= trivia@.subrange(0, i - 1));
        assert(trivia@.subrange(0, i as int).last() == trivia@[i - 1]);
        match &trivia[i - 1] {
            Trivia::BlockComment { blocks, comment } => {
                if *blocks == 1 {
                    return Some(comment.clone());
                }
            },
            Trivia::Other(_) => {},
        }
        i = i - 1;
    }
    None
}

/// Of several documentation comments before a token, the one nearest to the
/// token is attached: a level-one block comment followed only by other
/// trivia is the one found, whatever comes before it.
pub proof fn law_nearest_comment_wins(before: Seq<Trivia>, comment: String, after: Seq<Trivia>)
    requires
        forall|k: int|
            0 <= k < after.len() ==> !(#[trigger] after[k] matches Trivia::BlockComment {
                blocks,
                ..
            } && blocks == 1),
    ensures
        moonwave_comment(before + seq![Trivia::BlockComment { blocks: 1, comment }] + after)
            == Some(comment@),
    decreases after.len(),
{
    let all = before + seq![Trivia::BlockComment { blocks: 1, comment }] + after;
    if after.len() > 0 {
        assert(all.drop_last() =~= before + seq![Trivia::BlockComment { blocks: 1, comment }]
            + after.drop_last());
        assert(all.last() == after[after.len() - 1]);
        law_nearest_comment_wins(before, comment, after.drop_last());
    } else {
        assert(all.last() == Trivia::BlockComment { blocks: 1, comment });
    }
}

} // verus!
