//! Rewrites definition source text into a form the grammar parser accepts:
//! line endings are normalized, ambient `declare class ... end` blocks are cut
//! out, and `declare Name: ` headers become `export type Name =` headers.
use vstd::prelude::*;
use crate::text::{
    chars_of, find_from, find_from_exec, lemma_find_from_sound, occurs_at, occurs_at_exec,
    push_range, string_of,
};

verus! {

/// The words that open an ambient class block at the start of a line.
pub open spec fn class_open() -> Seq<char> {
    seq!['d', 'e', 'c', 'l', 'a', 'r', 'e', ' ', 'c', 'l', 'a', 's', 's']
}

/// An ambient class block opens at `i`: its words stand there, at the start
/// of the text or right after a newline.
pub open spec fn block_opens_at(s: Seq<char>, i: int) -> bool {
    occurs_at(s, class_open(), i) && (i == 0 || s[i - 1] == '\n')
}

/// The first index at or after `k` where an ambient class block opens.
pub open spec fn find_block(s: Seq<char>, k: int) -> Option<int>
    decreases s.len() + 1 - k,
{
    if k < 0 || k > s.len() {
        None
    } else if block_opens_at(s, k) {
        Some(k)
    } else {
        find_block(s, k + 1)
    }
}

pub proof fn lemma_find_block_sound(s: Seq<char>, k: int)
    ensures
        find_block(s, k) matches Some(i) ==> k <= i && block_opens_at(s, i),
        find_block(s, k) is None && 0 <= k ==> forall|j: int|
            k <= j ==> !#[trigger] block_opens_at(s, j),
    decreases s.len() + 1 - k,
{
    if k < 0 || k > s.len() {
    } else if block_opens_at(s, k) {
    } else {
        lemma_find_block_sound(s, k + 1);
        assert forall|j: int| k <= j && find_block(s, k) is None implies !block_opens_at(s, j) by {
            if j == k {
            }
        }
    }
}

/// Where the block that opens at `i` is cut from: the newline before it,
/// or the start of the text.
pub open spec fn cut_start(i: int) -> int {
    if i == 0 {
        0
    } else {
        i - 1
    }
}

/// The marker that closes an ambient class block.
pub open spec fn class_close() -> Seq<char> {
    seq!['\n', 'e', 'n', 'd']
}

pub open spec fn declare_prefix() -> Seq<char> {
    seq!['d', 'e', 'c', 'l', 'a', 'r', 'e', ' ']
}

pub open spec fn header_colon() -> Seq<char> {
    seq![':', ' ']
}

pub open spec fn export_prefix() -> Seq<char> {
    seq!['e', 'x', 'p', 'o', 'r', 't', ' ', 't', 'y', 'p', 'e', ' ']
}

pub open spec fn alias_sign() -> Seq<char> {
    seq![' ', '=']
}

/// `s` from index `i` on, with every `\r\n` pair replaced by `\n`.
pub open spec fn lf_from(s: Seq<char>, i: int) -> Seq<char>
    decreases s.len() - i,
{
    if i < 0 || i >= s.len() {
        seq![]
    } else if i + 1 < s.len() && s[i] == '\r' && s[i + 1] == '\n' {
        seq!['\n'] + lf_from(s, i + 2)
    } else {
        seq![s[i]] + lf_from(s, i + 1)
    }
}

/// `s` with the first ambient class block removed, repeatedly, until none is
/// left; `None` where a block has no closing marker after it.
pub open spec fn strip_class_blocks(s: Seq<char>) -> Option<Seq<char>>
    decreases s.len(),
{
    match find_block(s, 0) {
        None => Some(s),
        Some(i) => match find_from(s, class_close(), i) {
            None => None,
            Some(e) => if 0 <= cut_start(i) <= e && e + 4 <= s.len() {
                strip_class_blocks(s.subrange(0, cut_start(i)) + s.subrange(e + 4, s.len() as int))
            } else {
                None
            },
        },
    }
}

/// Whether `c` is a Unicode word character, the class that `\w` matches.
pub uninterp spec fn word_char(c: char) -> bool;

/// The end of the run of word characters that starts at `k`.
pub open spec fn word_end(s: Seq<char>, k: int) -> int
    decreases s.len() - k,
{
    if k < 0 || k >= s.len() || !word_char(s[k]) {
        k
    } else {
        word_end(s, k + 1)
    }
}

/// Where `declare Name: ` starts at `i`, the index of its colon.
pub open spec fn header_at(s: Seq<char>, i: int) -> Option<int> {
    if occurs_at(s, declare_prefix(), i) {
        let j = word_end(s, i + 8);
        if j > i + 8 && occurs_at(s, header_colon(), j) {
            Some(j)
        } else {
            None
        }
    } else {
        None
    }
}

/// `s` from `i` on, with each `declare Name: ` header turned into
/// `export type Name =`; headers are matched left to right without overlap.
pub open spec fn rewrite_from(s: Seq<char>, i: int) -> Seq<char>
    decreases s.len() - i,
{
    if i < 0 || i >= s.len() {
        seq![]
    } else {
        match header_at(s, i) {
            Some(j) => if j > i {
                export_prefix() + s.subrange(i + 8, j) + alias_sign() + rewrite_from(s, j + 2)
            } else {
                seq![]
            },
            None => seq![s[i]] + rewrite_from(s, i + 1),
        }
    }
}

/// The names of the headers that `rewrite_from` rewrites, in order.
pub open spec fn declares_from(s: Seq<char>, i: int) -> Seq<Seq<char>>
    decreases s.len() - i,
{
    if i < 0 || i >= s.len() {
        seq![]
    } else {
        match header_at(s, i) {
            Some(j) => if j > i {
                seq![s.subrange(i + 8, j)] + declares_from(s, j + 2)
            } else {
                seq![]
            },
            None => declares_from(s, i + 1),
        }
    }
}

/// The views of a sequence of strings.
pub open spec fn strings_view(v: Seq<String>) -> Seq<Seq<char>> {
    v.map_values(|x: String| x@)
}

/// Source text made ready for the grammar parser.
pub struct PreparedSource {
    /// The rewritten text.
    pub text: String,
    /// The names declared with the ambient `declare Name: ` syntax, in order.
    pub declares: Vec<String>,
}

/// Why preparing or scanning definitions failed.
#[derive(Debug, Clone, Copy, PartialEq, Eq, Structural)]
pub enum DefinitionsError {
    /// An ambient class block has no closing `end` line after it.
    UnterminatedClass,
}

fn class_open_exec() -> (r: Vec<char>)
    ensures
        r@ == class_open(),
{
    let r = vec!['d', 'e', 'c', 'l', 'a', 'r', 'e', ' ', 'c', 'l', 'a', 's', 's'];
    assert(r@ =~= class_open());
    r
}

fn class_close_exec() -> (r: Vec<char>)
    ensures
        r@ == class_close(),
{
    let r = vec!['\n', 'e', 'n', 'd'];
    assert(r@ =~= class_close());
    r
}

/// Replaces each `\r\n` pair of `s` with `\n`.
pub fn normalize_line_endings(s: &Vec<char>) -> (r: Vec<char>)
    ensures
        r@ == lf_from(s@, 0),
{
    let n = s.len();
    let mut out: Vec<char> = Vec::new();
    let mut i: usize = 0;
    while i < n
        invariant
            n == s@.len(),
            i <= n,
            lf_from(s@, 0) == out@ + lf_from(s@, i as int),
        decreases n - i,
    {
        if i + 1 < n && s[i] == '\r' && s[i + 1] == '\n' {
            assert(out@ + lf_from(s@, i as int) =~= out@.push('\n') + lf_from(s@, i + 2));
            out.push('\n');
            i = i + 2;
        } else {
            assert(out@ + lf_from(s@, i as int) =~= out@.push(s@[i as int]) + lf_from(
                s@,
                i + 1,
            ));
            out.push(s[i]);
            i = i + 1;
        }
    }
    assert(out@ + lf_from(s@, i as int) =~= out@);
    out
}

/// The first index at or after `start` where an ambient class block opens.
fn find_block_exec(s: &Vec<char>, open: &Vec<char>, start: usize) -> (r: Option<usize>)
    requires
        open@ == class_open(),
    ensures
        r matches Some(i) ==> find_block(s@, start as int) == Some(i as int),
        r is None ==> find_block(s@, start as int) is None,
{
    let n = s.len();
    if start > n {
        return None;
    }
    let mut i = start;
    while i < n
        invariant
            n == s@.len(),
            open@ == class_open(),
            start <= i <= n,
            find_block(s@, start as int) == find_block(s@, i as int),
        decreases n - i,
    {
        if (i == 0 || s[i - 1] == '\n') && occurs_at_exec(s, open, i) {
            return Some(i);
        }
        i = i + 1;
    }
    assert(class_open().len() == 13);
    assert(!block_opens_at(s@, n as int));
    assert(find_block(s@, n + 1) is None);
    None
}

/// Cuts every ambient class block out of `s`, the first one first.
pub fn remove_class_blocks(s: Vec<char>) -> (r: Result<Vec<char>, DefinitionsError>)
    ensures
        r matches Ok(t) ==> strip_class_blocks(s@) == Some(t@),
        r matches Err(e) ==> strip_class_blocks(s@) is None && e == DefinitionsError::UnterminatedClass,
{
    let open = class_open_exec();
    let close = class_close_exec();
    let mut cur = s;
    loop
        invariant
            open@ == class_open(),
            close@ == class_close(),
            strip_class_blocks(s@) == strip_class_blocks(cur@),
        decreases cur@.len(),
    {
        match find_block_exec(&cur, &open, 0) {
            None => {
                return Ok(cur);
            },
            Some(i) => {
                proof {
                    lemma_find_block_sound(cur@, 0);
                }
                let d = if i == 0 {
                    0
                } else {
                    i - 1
                };
                match find_from_exec(&cur, &close, i) {
                    None => {
                        return Err(DefinitionsError::UnterminatedClass);
                    },
                    Some(e) => {
                        proof {
                            lemma_find_from_sound(cur@, class_close(), i as int);
                            assert(class_close().len() == 4);
                        }
                        let n = cur.len();
                        let mut next: Vec<char> = Vec::new();
                        push_range(&mut next, &cur, 0, d);
                        push_range(&mut next, &cur, e + 4, n);
                        assert(next@ =~= cur@.subrange(0, d as int) + cur@.subrange(
                            e + 4,
                            cur@.len() as int,
                        ));
                        cur = next;
                    },
                }
            },
        }
    }
}

/// Relies on `regex_syntax::is_word_character`: whether `c` is in the
/// Unicode word class that `\w` matches. It panics only where the crate's
/// `unicode-perl` feature is off; that feature is on by default.
#[verifier::external_body]
fn is_word_char_exec(c: char) -> (r: bool)
    ensures
        r == word_char(c),
{
    regex_syntax::is_word_character(c)
}

fn word_end_exec(s: &Vec<char>, k: usize) -> (r: usize)
    requires
        k <= s@.len(),
    ensures
        r as int == word_end(s@, k as int),
{
    let n = s.len();
    let mut j = k;
    while j < n && is_word_char_exec(s[j])
        invariant
            n == s@.len(),
            k <= j <= n,
            word_end(s@, k as int) == word_end(s@, j as int),
        decreases n - j,
    {
        j = j + 1;
    }
    j
}

fn header_at_exec(s: &Vec<char>, i: usize) -> (r: Option<usize>)
    requires
        i < s@.len(),
    ensures
        r matches Some(j) ==> header_at(s@, i as int) == Some(j as int),
        r is None ==> header_at(s@, i as int) is None,
{
    let prefix = vec!['d', 'e', 'c', 'l', 'a', 'r', 'e', ' '];
    let colon = vec![':', ' '];
    assert(prefix@ =~= declare_prefix());
    assert(colon@ =~= header_colon());
    let n = s.len();
    if !occurs_at_exec(s, &prefix, i) {
        return None;
    }
    assert(declare_prefix().len() == 8);
    let j = word_end_exec(s, i + 8);
    if j > i + 8 && occurs_at_exec(s, &colon, j) {
        Some(j)
    } else {
        None
    }
}

proof fn lemma_word_end_bounds(s: Seq<char>, k: int)
    requires
        0 <= k <= s.len(),
    ensures
        k <= word_end(s, k) <= s.len(),
    decreases s.len() - k,
{
    if k < s.len() && word_char(s[k]) {
        lemma_word_end_bounds(s, k + 1);
    }
}

/// Rewrites every `declare Name: ` header of `s` into `export type Name =`,
/// and returns the rewritten text with the names in order of appearance.
pub fn rewrite_declares(s: &Vec<char>) -> (r: (Vec<char>, Vec<String>))
    ensures
        r.0@ == rewrite_from(s@, 0),
        strings_view(r.1@) == declares_from(s@, 0),
{
    let n = s.len();
    let mut out: Vec<char> = Vec::new();
    let mut names: Vec<String> = Vec::new();
    let mut i: usize = 0;
    while i < n
        invariant
            n == s@.len(),
            i <= n,
            rewrite_from(s@, 0) == out@ + rewrite_from(s@, i as int),
            declares_from(s@, 0) == strings_view(names@) + declares_from(s@, i as int),
        decreases n - i,
    {
        match header_at_exec(s, i) {
            Some(j) => {
                proof {
                    lemma_word_end_bounds(s@, i + 8);
                }
                let ghost before = out@;
                out.push('e');
                out.push('x');
                out.push('p');
                out.push('o');
                out.push('r');
                out.push('t');
                out.push(' ');
                out.push('t');
                out.push('y');
                out.push('p');
                out.push('e');
                out.push(' ');
                push_range(&mut out, s, i + 8, j);
                out.push(' ');
                out.push('=');
                assert(out@ =~= before + export_prefix() + s@.subrange(i + 8, j as int)
                    + alias_sign());
                assert(before + rewrite_from(s@, i as int) =~= out@ + rewrite_from(s@, j + 2));
                let name = string_of(&s.as_slice()[i + 8..j]);
                let ghost names_before = strings_view(names@);
                names.push(name);
                assert(strings_view(names@) =~= names_before.push(s@.subrange(i + 8, j as int)));
                assert(names_before + declares_from(s@, i as int) =~= strings_view(names@)
                    + declares_from(s@, j + 2));
                i = j + 2;
            },
            None => {
                assert(out@ + rewrite_from(s@, i as int) =~= out@.push(s@[i as int])
                    + rewrite_from(s@, i + 1));
                out.push(s[i]);
                i = i + 1;
            },
        }
    }
    assert(out@ + rewrite_from(s@, i as int) =~= out@);
    assert(strings_view(names@) + declares_from(s@, i as int) =~= strings_view(names@));
    (out, names)
}

/// The text that `prepare_source` hands to the grammar parser, if any.
pub open spec fn prepared_text(s: Seq<char>) -> Option<Seq<char>> {
    match strip_class_blocks(lf_from(s, 0)) {
        Some(t) => Some(rewrite_from(t, 0)),
        None => None,
    }
}

/// The names declared with the ambient syntax in `s`, if it can be prepared.
pub open spec fn prepared_declares(s: Seq<char>) -> Option<Seq<Seq<char>>> {
    match strip_class_blocks(lf_from(s, 0)) {
        Some(t) => Some(declares_from(t, 0)),
        None => None,
    }
}

/// Normalizes line endings, cuts out ambient class blocks, and rewrites
/// ambient `declare Name: ` headers, recording the declared names.
pub fn prepare_source(contents: &str) -> (r: Result<PreparedSource, DefinitionsError>)
    ensures
        r matches Ok(p) ==> prepared_text(contents@) == Some(p.text@) && prepared_declares(
            contents@,
        ) == Some(strings_view(p.declares@)),
        r matches Err(e) ==> prepared_text(contents@) is None && e
            == DefinitionsError::UnterminatedClass,
{
    let chars = chars_of(contents);
    let unified = normalize_line_endings(&chars);
    let stripped = remove_class_blocks(unified)?;
    let (rewritten, declares) = rewrite_declares(&stripped);
    Ok(PreparedSource { text: string_of(rewritten.as_slice()), declares })
}

/// Cutting out the first ambient class block, from the line it opens on to
/// the first closing marker after it, leaves a text that strips to the same
/// result as the whole.
pub proof fn law_class_block_cut(s: Seq<char>, i: int, e: int)
    requires
        find_block(s, 0) == Some(i),
        find_from(s, class_close(), i) == Some(e),
    ensures
        strip_class_blocks(s) == strip_class_blocks(
            s.subrange(0, cut_start(i)) + s.subrange(e + 4, s.len() as int),
        ),
{
    lemma_find_block_sound(s, 0);
    lemma_find_from_sound(s, class_close(), i);
    assert(class_close().len() == 4);
}

/// No ambient class block opens anywhere in stripped text.
pub proof fn law_no_class_block_left(s: Seq<char>)
    ensures
        strip_class_blocks(s) matches Some(t) ==> forall|j: int| !#[trigger] block_opens_at(t, j),
    decreases s.len(),
{
    lemma_find_block_sound(s, 0);
    match find_block(s, 0) {
        None => {
            assert forall|j: int| !#[trigger] block_opens_at(s, j) by {
                if j < 0 {
                }
            }
        },
        Some(i) => {
            lemma_find_from_sound(s, class_close(), i);
            match find_from(s, class_close(), i) {
                None => {},
                Some(e) => {
                    assert(class_close().len() == 4);
                    law_no_class_block_left(
                        s.subrange(0, cut_start(i)) + s.subrange(e + 4, s.len() as int),
                    );
                },
            }
        },
    }
}

/// `s` holds no `\r\n` pair: its line endings are already normalized.
pub open spec fn lf_only(s: Seq<char>) -> bool {
    forall|k: int| 0 <= k < s.len() - 1 ==> !(s[k] == '\r' && #[trigger] s[k + 1] == '\n')
}

proof fn lemma_lf_from_plain(s: Seq<char>, i: int)
    requires
        0 <= i <= s.len(),
        lf_only(s),
    ensures
        lf_from(s, i) == s.subrange(i, s.len() as int),
    decreases s.len() - i,
{
    if i < s.len() {
        lemma_lf_from_plain(s, i + 1);
        assert(s.subrange(i, s.len() as int) =~= seq![s[i]] + s.subrange(i + 1, s.len() as int));
    } else {
        assert(s.subrange(i, s.len() as int) =~= Seq::<char>::empty());
    }
}

/// In text whose line endings are already normalized, preparing the whole
/// source and preparing it with its first ambient class block cut out give
/// the same text and the same declared names.
pub proof fn law_class_block_cut_prepared(s: Seq<char>, i: int, e: int)
    requires
        lf_only(s),
        find_block(s, 0) == Some(i),
        find_from(s, class_close(), i) == Some(e),
    ensures
        prepared_text(s) == prepared_text(
            s.subrange(0, cut_start(i)) + s.subrange(e + 4, s.len() as int),
        ),
        prepared_declares(s) == prepared_declares(
            s.subrange(0, cut_start(i)) + s.subrange(e + 4, s.len() as int),
        ),
{
    let d = cut_start(i);
    let cut = s.subrange(0, d) + s.subrange(e + 4, s.len() as int);
    law_class_block_cut(s, i, e);
    lemma_find_block_sound(s, 0);
    lemma_find_from_sound(s, class_close(), i);
    assert(class_close().len() == 4);
    lemma_lf_from_plain(s, 0);
    assert(s.subrange(0, s.len() as int) =~= s);
    assert forall|k: int| 0 <= k < cut.len() - 1 implies !(cut[k] == '\r' && #[trigger] cut[k + 1]
        == '\n') by {
        assert(0 <= d <= i <= e && e + 4 <= s.len());
        if k + 1 < d {
            assert(cut[k] == s[k] && cut[k + 1] == s[k + 1]);
            assert(!(s[k] == '\r' && s[k + 1] == '\n'));
        } else if k >= d {
            let k2 = k - d + e + 4;
            assert(cut[k] == s[k2] && cut[k + 1] == s[k2 + 1]);
            assert(!(s[k2] == '\r' && s[k2 + 1] == '\n'));
        } else {
            assert(cut[k] == s[k]);
            assert(s[i - 1] == '\n');
            assert(k == i - 2);
            assert(!(s[k] == '\r' && s[k + 1] == '\n'));
        }
    }
    lemma_lf_from_plain(cut, 0);
    assert(cut.subrange(0, cut.len() as int) =~= cut);
}

} // verus!
