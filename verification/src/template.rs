//! Template trees and their expansion into the files of a new project.
//!
//! A template is a tree of directories and files. Expanding it walks the tree
//! in order, turns every directory into a directory to create and every file
//! into a text file whose placeholders have been filled in.

use crate::text::{keeps_clear_of, lemma_replaced_brings_no_other, lemma_replaced_holds_no_token,
    lemma_replaced_without_token, occurs, replace_all, replaced};
use vstd::prelude::*;
use vstd::string::StringSliceAdditionalSpecFns;
use vstd::utf8::*;

verus! {

/// One placeholder and the text that takes its place.
#[derive(Debug, Clone, PartialEq, Eq)]
pub struct Substitution {
    pub token: String,
    pub value: String,
}

impl View for Substitution {
    type V = (Seq<char>, Seq<char>);

    open spec fn view(&self) -> (Seq<char>, Seq<char>) {
        (self.token@, self.value@)
    }
}

/// A substitution table as pairs of token and value.
pub open spec fn pairs(table: Seq<Substitution>) -> Seq<(Seq<char>, Seq<char>)> {
    table.map_values(|s: Substitution| s@)
}

/// `text` after the substitutions of `table` were made one after the other,
/// each on the result of the one before.
pub open spec fn rendered(text: Seq<char>, table: Seq<(Seq<char>, Seq<char>)>) -> Seq<char>
    decreases table.len(),
{
    if table.len() == 0 {
        text
    } else {
        replaced(rendered(text, table.drop_last()), table.last().0, table.last().1)
    }
}

/// Every value keeps clear of its own token and of the tokens before it.
pub open spec fn settled(table: Seq<(Seq<char>, Seq<char>)>) -> bool {
    forall|i: int, j: int|
        #![trigger table[i], table[j]]
        0 <= i <= j < table.len() ==> keeps_clear_of(table[j].1, table[i].0)
}

/// In a text rendered with a settled table, none of the table's tokens is left.
pub proof fn lemma_rendered_holds_no_token(
    text: Seq<char>,
    table: Seq<(Seq<char>, Seq<char>)>,
    i: int,
)
    requires
        settled(table),
        0 <= i < table.len(),
    ensures
        !occurs(rendered(text, table), table[i].0),
    decreases table.len(),
{
    let before = rendered(text, table.drop_last());
    let last = table.last();
    assert(keeps_clear_of(table[table.len() - 1].1, table[i].0));
    if i == table.len() - 1 {
        lemma_replaced_holds_no_token(before, last.0, last.1);
    } else {
        assert forall|a: int, b: int| 0 <= a <= b < table.drop_last().len() implies keeps_clear_of(
            table.drop_last()[b].1,
            table.drop_last()[a].0,
        ) by {
            assert(keeps_clear_of(table[b].1, table[a].0));
        }
        lemma_rendered_holds_no_token(text, table.drop_last(), i);
        lemma_replaced_brings_no_other(before, last.0, last.1, table[i].0);
    }
}

/// A text that holds none of the table's tokens is rendered as it is.
pub proof fn lemma_rendered_without_tokens(text: Seq<char>, table: Seq<(Seq<char>, Seq<char>)>)
    requires
        forall|i: int| 0 <= i < table.len() ==> !occurs(text, #[trigger] table[i].0),
    ensures
        rendered(text, table) == text,
    decreases table.len(),
{
    if table.len() > 0 {
        assert forall|i: int| 0 <= i < table.drop_last().len() implies !occurs(
            text,
            #[trigger] table.drop_last()[i].0,
        ) by {
            assert(!occurs(text, table[i].0));
        }
        lemma_rendered_without_tokens(text, table.drop_last());
        assert(!occurs(text, table[table.len() - 1].0));
        lemma_replaced_without_token(text, table.last().0, table.last().1);
    }
}

/// Fills in the placeholders of `text`: makes the substitutions of `table`
/// in order, each on the result of the one before.
pub fn render(text: &str, table: &Vec<Substitution>) -> (out: String)
    ensures
        out@ == rendered(text@, pairs(table@)),
{
    let mut out = text.to_owned();
    let mut i: usize = 0;
    proof {
        assert(pairs(table@).take(0).len() == 0);
    }
    while i < table.len()
        invariant
            i <= table@.len(),
            out@ == rendered(text@, pairs(table@).take(i as int)),
        decreases table@.len() - i,
    {
        let next = replace_all(out.as_str(), table[i].token.as_str(), table[i].value.as_str());
        proof {
            let done = pairs(table@).take(i + 1);
            assert(done.drop_last() == pairs(table@).take(i as int));
            assert(done.last() == table@[i as int]@);
        }
        out = next;
        i += 1;
    }
    proof {
        assert(pairs(table@).take(i as int) == pairs(table@));
    }
    out
}

/// An entry of a template tree. Paths are relative to the root of the tree.
#[derive(Debug, PartialEq, Eq)]
pub enum TemplateEntry {
    Dir { path: String, children: Vec<TemplateEntry> },
    File { path: String, contents: Vec<u8> },
}

/// Something to create below the project directory.
#[derive(Debug, Clone, PartialEq, Eq)]
pub enum Artifact {
    Dir { path: String },
    File { path: String, contents: String },
}

/// An artifact as plain values.
pub enum ArtifactView {
    Dir { path: Seq<char> },
    File { path: Seq<char>, contents: Seq<char> },
}

impl View for Artifact {
    type V = ArtifactView;

    open spec fn view(&self) -> ArtifactView {
        match self {
            Artifact::Dir { path } => ArtifactView::Dir { path: path@ },
            Artifact::File { path, contents } => ArtifactView::File {
                path: path@,
                contents: contents@,
            },
        }
    }
}

impl DeepView for Artifact {
    type V = ArtifactView;

    open spec fn deep_view(&self) -> ArtifactView {
        self@
    }
}

/// Why a template could not be expanded.
#[derive(Debug, Clone, Copy, PartialEq, Eq)]
pub enum ExpandError {
    /// A file of the template is not valid UTF-8.
    NotText,
}

impl ExpandError {
    pub open spec fn message_spec(self) -> Seq<char> {
        "File is not UTF-8"@
    }

    /// The text shown for this error.
    pub fn message(&self) -> (s: String)
        ensures
            s@ == self.message_spec(),
    {
        "File is not UTF-8".to_owned()
    }
}

/// How far a walk through a template got: what it made, in order, and
/// whether it broke off at a file that is no text.
pub struct Walk {
    pub made: Seq<ArtifactView>,
    pub broke_off: bool,
}

/// The walk through one entry: a directory is made before what it holds; a
/// file is made with its placeholders filled in, or breaks the walk off when
/// its contents are not valid UTF-8.
pub open spec fn walk_entry(entry: TemplateEntry, table: Seq<(Seq<char>, Seq<char>)>) -> Walk
    decreases entry, 0nat,
{
    match entry {
        TemplateEntry::Dir { path, children } => {
            let below = walk_entries(children@, table, children@.len());
            Walk { made: seq![ArtifactView::Dir { path: path@ }] + below.made, ..below }
        },
        TemplateEntry::File { path, contents } => {
            if valid_utf8(contents@) {
                Walk {
                    made: seq![
                        ArtifactView::File {
                            path: path@,
                            contents: rendered(decode_utf8(contents@), table),
                        },
                    ],
                    broke_off: false,
                }
            } else {
                Walk { made: Seq::empty(), broke_off: true }
            }
        },
    }
}

/// The walk through the first `n` of `entries`, one after the other: it ends
/// at the first entry whose walk broke off.
pub open spec fn walk_entries(
    entries: Seq<TemplateEntry>,
    table: Seq<(Seq<char>, Seq<char>)>,
    n: nat,
) -> Walk
    decreases entries, n,
{
    if n == 0 || n > entries.len() {
        Walk { made: Seq::empty(), broke_off: false }
    } else {
        let before = walk_entries(entries, table, (n - 1) as nat);
        if before.broke_off {
            before
        } else {
            let this = walk_entry(entries[n - 1], table);
            Walk { made: before.made + this.made, ..this }
        }
    }
}

/// The text that `bytes` encode, when they are valid UTF-8.
///
/// Calls `std::str::from_utf8`. The contract says what its documentation
/// says: the call succeeds exactly on valid UTF-8, and the string slice it
/// returns is the given bytes.
#[verifier::external_body]
fn text_of(bytes: &[u8]) -> (r: Option<&str>)
    ensures
        r is Some <==> valid_utf8(bytes@),
        r matches Some(s) ==> s.spec_bytes() == bytes@,
{
    std::str::from_utf8(bytes).ok()
}

/// Expands one entry of a template and what lies below it, adding to `out`
/// what is to be created, in the order of creation. On an error `out` holds
/// what came before the file that is no text.
pub fn extract_entry(
    entry: &TemplateEntry,
    table: &Vec<Substitution>,
    out: &mut Vec<Artifact>,
) -> (r: Result<(), ExpandError>)
    ensures
        final(out).deep_view() == old(out).deep_view() + walk_entry(*entry, pairs(table@)).made,
        r is Err <==> walk_entry(*entry, pairs(table@)).broke_off,
    decreases entry,
{
    match entry {
        TemplateEntry::Dir { path, children } => {
            out.push(Artifact::Dir { path: path.clone() });
            proof {
                assert(out.deep_view() == old(out).deep_view() + seq![
                    ArtifactView::Dir { path: path@ },
                ]);
            }
            let mut i: usize = 0;
            while i < children.len()
                invariant
                    i <= children@.len(),
                    entry is Dir,
                    entry->children == children,
                    entry->Dir_path == path,
                    !walk_entries(children@, pairs(table@), i as nat).broke_off,
                    out.deep_view() == old(out).deep_view() + seq![
                        ArtifactView::Dir { path: path@ },
                    ] + walk_entries(children@, pairs(table@), i as nat).made,
                decreases children@.len() - i,
            {
                let ghost before = out.deep_view();
                let step = extract_entry(&children[i], table, out);
                proof {
                    let this = walk_entry(children@[i as int], pairs(table@));
                    assert(out.deep_view() == before + this.made);
                    assert(walk_entries(children@, pairs(table@), (i + 1) as nat).made
                        == walk_entries(children@, pairs(table@), i as nat).made + this.made);
                }
                i += 1;
                if step.is_err() {
                    proof {
                        lemma_walk_stays_broken(children@, pairs(table@), i as nat, children@.len());
                    }
                    return step;
                }
            }
            Ok(())
        },
        TemplateEntry::File { path, contents } => {
            match text_of(contents.as_slice()) {
                Some(text) => {
                    proof {
                        encode_utf8_decode_utf8(text@);
                    }
                    let filled = render(text, table);
                    out.push(Artifact::File { path: path.clone(), contents: filled });
                    proof {
                        assert(out.deep_view() == old(out).deep_view() + seq![
                            ArtifactView::File { path: path@, contents: filled@ },
                        ]);
                    }
                    Ok(())
                },
                None => {
                    proof {
                        assert(out.deep_view() == old(out).deep_view() + Seq::<
                            ArtifactView,
                        >::empty());
                    }
                    Err(ExpandError::NotText)
                },
            }
        },
    }
}

/// What expanding a template yielded: what is to be created, in order, and
/// the error at which the expansion ended, if it did not reach the end.
#[derive(Debug, Clone, PartialEq, Eq)]
pub struct Expansion {
    pub artifacts: Vec<Artifact>,
    pub failure: Option<ExpandError>,
}

/// Expands a template: walks its entries in order and fills in the
/// placeholders of every file with `table`. The walk ends at the first file
/// that is not valid UTF-8; what came before it is still to be created.
pub fn expand(tree: &Vec<TemplateEntry>, table: &Vec<Substitution>) -> (e: Expansion)
    ensures
        e.artifacts.deep_view() == walk_entries(tree@, pairs(table@), tree@.len()).made,
        e.failure is Some <==> walk_entries(tree@, pairs(table@), tree@.len()).broke_off,
{
    let mut artifacts: Vec<Artifact> = Vec::new();
    let mut i: usize = 0;
    proof {
        assert(artifacts.deep_view() == Seq::<ArtifactView>::empty());
    }
    while i < tree.len()
        invariant
            i <= tree@.len(),
            !walk_entries(tree@, pairs(table@), i as nat).broke_off,
            artifacts.deep_view() == walk_entries(tree@, pairs(table@), i as nat).made,
        decreases tree@.len() - i,
    {
        let step = extract_entry(&tree[i], table, &mut artifacts);
        i += 1;
        if let Err(error) = step {
            proof {
                lemma_walk_stays_broken(tree@, pairs(table@), i as nat, tree@.len());
            }
            return Expansion { artifacts, failure: Some(error) };
        }
    }
    Expansion { artifacts, failure: None }
}

/// A walk that broke off within the first `n` entries is the whole walk.
pub proof fn lemma_walk_stays_broken(
    entries: Seq<TemplateEntry>,
    table: Seq<(Seq<char>, Seq<char>)>,
    n: nat,
    m: nat,
)
    requires
        n <= m <= entries.len(),
        walk_entries(entries, table, n).broke_off,
    ensures
        walk_entries(entries, table, m) == walk_entries(entries, table, n),
    decreases m,
{
    if n < m {
        lemma_walk_stays_broken(entries, table, n, (m - 1) as nat);
    }
}

/// In what the walk through one entry makes with a settled table, no file
/// holds a token of the table.
pub proof fn lemma_entry_holds_no_token(
    entry: TemplateEntry,
    table: Seq<(Seq<char>, Seq<char>)>,
    k: int,
    i: int,
)
    requires
        settled(table),
        0 <= i < table.len(),
        0 <= k < walk_entry(entry, table).made.len(),
        walk_entry(entry, table).made[k] is File,
    ensures
        !occurs(walk_entry(entry, table).made[k]->contents, table[i].0),
    decreases entry, 0nat,
{
    match entry {
        TemplateEntry::Dir { path, children } => {
            lemma_entries_hold_no_token(children@, table, children@.len(), k - 1, i);
        },
        TemplateEntry::File { path, contents } => {
            lemma_rendered_holds_no_token(decode_utf8(contents@), table, i);
        },
    }
}

/// In what the walk through a template makes with a settled table, no file
/// holds a token of the table.
pub proof fn lemma_entries_hold_no_token(
    entries: Seq<TemplateEntry>,
    table: Seq<(Seq<char>, Seq<char>)>,
    n: nat,
    k: int,
    i: int,
)
    requires
        settled(table),
        0 <= i < table.len(),
        0 <= k < walk_entries(entries, table, n).made.len(),
        walk_entries(entries, table, n).made[k] is File,
    ensures
        !occurs(walk_entries(entries, table, n).made[k]->contents, table[i].0),
    decreases entries, n,
{
    if n == 0 || n > entries.len() {
    } else {
        let before = walk_entries(entries, table, (n - 1) as nat);
        if before.broke_off || k < before.made.len() {
            lemma_entries_hold_no_token(entries, table, (n - 1) as nat, k, i);
        } else {
            lemma_entry_holds_no_token(entries[n - 1], table, k - before.made.len(), i);
        }
    }
}

} // verus!
