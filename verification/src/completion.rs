//! Completion by prefix: of the identifiers that the symbol table holds,
//! those that begin with the identifier left of the cursor.

use crate::position::{current_ident, word_before, Position};
use crate::text::chars_of;
use vstd::prelude::*;

verus! {

/// What a completion candidate names.
#[derive(Clone, Copy, Debug, PartialEq, Eq, Structural)]
pub enum CompletionItemKind {
    Variable,
}

/// One suggestion: the identifier, as it is listed and as it is inserted.
#[derive(Debug)]
pub struct CompletionItem {
    pub label: String,
    pub kind: CompletionItemKind,
    pub insert_text: String,
}

/// The identifiers of `names` that begin with `prefix`, in the order in
/// which `names` holds them. The match is exact, character by character.
pub open spec fn matching(names: Seq<Seq<char>>, prefix: Seq<char>) -> Seq<Seq<char>> {
    names.filter(|n: Seq<char>| prefix.is_prefix_of(n))
}

/// The names as sequences of characters.
pub open spec fn name_views(names: Seq<String>) -> Seq<Seq<char>> {
    names.map_values(|s: String| s@)
}

/// The labels of the candidates.
pub open spec fn labels(items: Seq<CompletionItem>) -> Seq<Seq<char>> {
    items.map_values(|c: CompletionItem| c.label@)
}

/// Every candidate is a variable and inserts its own label.
pub open spec fn plain_variables(items: Seq<CompletionItem>) -> bool {
    forall|i: int|
        0 <= i < items.len() ==> (#[trigger] items[i]).kind == CompletionItemKind::Variable
            && items[i].insert_text@ == items[i].label@
}

/// One more name is kept where it begins with the prefix, and dropped
/// where it does not.
pub proof fn lemma_matching_push(names: Seq<Seq<char>>, name: Seq<char>, prefix: Seq<char>)
    ensures
        matching(names.push(name), prefix) == if prefix.is_prefix_of(name) {
            matching(names, prefix).push(name)
        } else {
            matching(names, prefix)
        },
{
    reveal(Seq::filter);
    assert(names.push(name).drop_last() =~= names);
}

/// Every identifier kept is one of `names` and begins with `prefix`.
pub proof fn lemma_matching_sound(names: Seq<Seq<char>>, prefix: Seq<char>)
    ensures
        forall|i: int|
            0 <= i < matching(names, prefix).len() ==> names.contains(
                #[trigger] matching(names, prefix)[i],
            ) && prefix.is_prefix_of(matching(names, prefix)[i]),
    decreases names.len(),
{
    reveal(Seq::filter);
    if names.len() > 0 {
        let init = names.drop_last();
        lemma_matching_sound(init, prefix);
        assert(names =~= init.push(names.last()));
        lemma_matching_push(init, names.last(), prefix);
        let kept = matching(names, prefix);
        assert forall|i: int| 0 <= i < kept.len() implies names.contains(#[trigger] kept[i])
            && prefix.is_prefix_of(kept[i]) by {
            if i < matching(init, prefix).len() {
                let j = choose|j: int| 0 <= j < init.len() && init[j] == matching(init, prefix)[i];
                assert(names[j] == kept[i]);
            } else {
                assert(kept[i] == names[names.len() - 1]);
            }
        }
    }
}

/// Every one of `names` that begins with `prefix` is kept.
pub proof fn lemma_matching_complete(names: Seq<Seq<char>>, prefix: Seq<char>, k: int)
    requires
        0 <= k < names.len(),
        prefix.is_prefix_of(names[k]),
    ensures
        matching(names, prefix).contains(names[k]),
    decreases names.len(),
{
    let init = names.drop_last();
    assert(names =~= init.push(names.last()));
    lemma_matching_push(init, names.last(), prefix);
    let kept = matching(names, prefix);
    if k == names.len() - 1 {
        assert(kept[kept.len() - 1] == names[k]);
    } else {
        lemma_matching_complete(init, prefix, k);
        let j = choose|j: int|
            0 <= j < matching(init, prefix).len() && matching(init, prefix)[j] == init[k];
        assert(kept[j] == names[k]);
    }
}

/// Whether `name` begins with `prefix`.
pub fn starts_with(name: &Vec<char>, prefix: &Vec<char>) -> (b: bool)
    ensures
        b == prefix@.is_prefix_of(name@),
{
    if prefix.len() > name.len() {
        return false;
    }
    let mut i: usize = 0;
    while i < prefix.len()
        invariant
            i <= prefix.len() <= name.len(),
            forall|j: int| 0 <= j < i ==> prefix@[j] == name@[j],
        decreases prefix.len() - i,
    {
        if prefix[i] != name[i] {
            assert(name@.subrange(0, prefix.len() as int)[i as int] != prefix@[i as int]);
            return false;
        }
        i = i + 1;
    }
    assert(prefix@ =~= name@.subrange(0, prefix.len() as int));
    true
}

/// A candidate for each of `names` that begins with `prefix`, in the order
/// of `names`.
pub fn candidates(names: &Vec<String>, prefix: &str) -> (items: Vec<CompletionItem>)
    ensures
        labels(items@) == matching(name_views(names@), prefix@),
        plain_variables(items@),
{
    let want = chars_of(prefix);
    let mut items: Vec<CompletionItem> = Vec::new();
    let mut i: usize = 0;
    assert(name_views(names@.subrange(0, 0)) =~= Seq::<Seq<char>>::empty());
    assert(labels(items@) =~= matching(name_views(names@.subrange(0, 0)), prefix@));
    while i < names.len()
        invariant
            i <= names.len(),
            want@ == prefix@,
            labels(items@) == matching(name_views(names@.subrange(0, i as int)), prefix@),
            plain_variables(items@),
        decreases names.len() - i,
    {
        let name = &names[i];
        let have = chars_of(name.as_str());
        proof {
            let seen = name_views(names@.subrange(0, i as int));
            assert(name_views(names@.subrange(0, i + 1)) =~= seen.push(name@));
            lemma_matching_push(seen, name@, prefix@);
        }
        if starts_with(&have, &want) {
            let ghost before = items@;
            let item = CompletionItem {
                label: name.clone(),
                kind: CompletionItemKind::Variable,
                insert_text: name.clone(),
            };
            items.push(item);
            assert(labels(items@) =~= labels(before).push(name@));
        }
        i = i + 1;
    }
    assert(names@.subrange(0, names.len() as int) =~= names@);
    items
}

/// The candidates at `position` in `text`: of the identifiers `names` of
/// the symbol table, those that begin with the identifier left of the
/// cursor. With no identifier there, every name is a candidate.
pub fn complete(text: &str, position: Position, names: &Vec<String>) -> (items: Vec<
    CompletionItem,
>)
    ensures
        labels(items@) == matching(
            name_views(names@),
            word_before(text@, position.line as nat, position.character as nat),
        ),
        plain_variables(items@),
{
    let prefix = current_ident(text, position);
    candidates(names, prefix.as_str())
}

} // verus!
