//! The documents that are open, each with its current full text.

use vstd::prelude::*;

verus! {

/// An open document: its URI and its full text.
#[derive(Debug)]
pub struct Document {
    pub uri: String,
    pub text: String,
}

/// The map that a sequence of documents stands for: each URI with the text
/// of the last document that bears it.
pub open spec fn texts_of(docs: Seq<Document>) -> Map<Seq<char>, Seq<char>>
    decreases docs.len(),
{
    if docs.len() == 0 {
        Map::empty()
    } else {
        texts_of(docs.drop_last()).insert(docs.last().uri@, docs.last().text@)
    }
}

/// No two documents of the sequence bear the same URI.
pub open spec fn distinct_uris(docs: Seq<Document>) -> bool {
    forall|i: int, j: int| 0 <= i < j < docs.len() ==> docs[i].uri@ != docs[j].uri@
}

/// A URI that no document bears is no key of the map.
pub proof fn lemma_texts_absent(docs: Seq<Document>, uri: Seq<char>)
    requires
        forall|i: int| 0 <= i < docs.len() ==> docs[i].uri@ != uri,
    ensures
        !texts_of(docs).contains_key(uri),
    decreases docs.len(),
{
    if docs.len() > 0 {
        let init = docs.drop_last();
        assert forall|i: int| 0 <= i < init.len() implies init[i].uri@ != uri by {
            assert(init[i] == docs[i]);
        }
        lemma_texts_absent(init, uri);
    }
}

/// Where the URIs are distinct, the map gives each document's own text.
pub proof fn lemma_texts_present(docs: Seq<Document>, i: int)
    requires
        distinct_uris(docs),
        0 <= i < docs.len(),
    ensures
        texts_of(docs).contains_key(docs[i].uri@),
        texts_of(docs)[docs[i].uri@] == docs[i].text@,
    decreases docs.len(),
{
    let init = docs.drop_last();
    if i < docs.len() - 1 {
        assert(init[i] == docs[i]);
        assert(distinct_uris(init)) by {
            assert forall|a: int, b: int| 0 <= a < b < init.len() implies init[a].uri@
                != init[b].uri@ by {
                assert(init[a] == docs[a] && init[b] == docs[b]);
            }
        }
        lemma_texts_present(init, i);
    }
}

/// Where the URIs are distinct, taking a document out of the sequence
/// takes its URI out of the map, and nothing else.
pub proof fn lemma_texts_remove(docs: Seq<Document>, i: int)
    requires
        distinct_uris(docs),
        0 <= i < docs.len(),
    ensures
        distinct_uris(docs.remove(i)),
        texts_of(docs.remove(i)) == texts_of(docs).remove(docs[i].uri@),
    decreases docs.len(),
{
    let init = docs.drop_last();
    let rest = docs.remove(i);
    assert forall|a: int, b: int| 0 <= a < b < rest.len() implies rest[a].uri@
        != rest[b].uri@ by {
        let a0 = if a < i { a } else { a + 1 };
        let b0 = if b < i { b } else { b + 1 };
        assert(rest[a] == docs[a0] && rest[b] == docs[b0]);
    }
    if i == docs.len() - 1 {
        assert(rest =~= init);
        assert forall|j: int| 0 <= j < init.len() implies init[j].uri@ != docs[i].uri@ by {
            assert(init[j] == docs[j]);
        }
        lemma_texts_absent(init, docs[i].uri@);
        assert(texts_of(init) =~= texts_of(docs).remove(docs[i].uri@));
    } else {
        assert(distinct_uris(init)) by {
            assert forall|a: int, b: int| 0 <= a < b < init.len() implies init[a].uri@
                != init[b].uri@ by {
                assert(init[a] == docs[a] && init[b] == docs[b]);
            }
        }
        assert(init[i] == docs[i]);
        lemma_texts_remove(init, i);
        assert(rest.drop_last() =~= init.remove(i));
        assert(rest.last() == docs.last());
        assert(texts_of(rest) =~= texts_of(docs).remove(docs[i].uri@));
    }
}

/// The text of every open document, by URI. A URI has at most one entry.
#[derive(Debug)]
pub struct DocumentStore {
    docs: Vec<Document>,
}

impl View for DocumentStore {
    type V = Map<Seq<char>, Seq<char>>;

    closed spec fn view(&self) -> Map<Seq<char>, Seq<char>> {
        texts_of(self.docs@)
    }
}

impl DocumentStore {
    /// No URI has two entries.
    pub closed spec fn wf(&self) -> bool {
        distinct_uris(self.docs@)
    }

    /// A store with no document.
    pub fn new() -> (store: DocumentStore)
        ensures
            store.wf(),
            store@ == Map::<Seq<char>, Seq<char>>::empty(),
    {
        DocumentStore { docs: Vec::new() }
    }

    /// Where the entry of `uri` stands, if there is one.
    fn find(&self, uri: &str) -> (at: Option<usize>)
        ensures
            match at {
                Some(i) => i < self.docs.len() && self.docs@[i as int].uri@ == uri@,
                None => forall|i: int| 0 <= i < self.docs.len() ==> self.docs@[i].uri@ != uri@,
            },
    {
        let mut i: usize = 0;
        while i < self.docs.len()
            invariant
                i <= self.docs.len(),
                forall|j: int| 0 <= j < i ==> self.docs@[j].uri@ != uri@,
            decreases self.docs.len() - i,
        {
            if same_text(self.docs[i].uri.as_str(), uri) {
                return Some(i);
            }
            i = i + 1;
        }
        None
    }

    /// Inserts the document, or replaces the text that `uri` had.
    pub fn open(&mut self, uri: String, text: String)
        requires
            old(self).wf(),
        ensures
            final(self).wf(),
            final(self)@ == old(self)@.insert(uri@, text@),
    {
        self.close(uri.as_str());
        proof {
            let docs = self.docs@;
            let added = docs.push(Document { uri, text });
            assert(added.drop_last() =~= docs);
            assert forall|i: int| 0 <= i < docs.len() implies docs[i].uri@ != uri@ by {
                if docs[i].uri@ == uri@ {
                    lemma_texts_present(docs, i);
                }
            }
            assert(old(self)@.remove(uri@).insert(uri@, text@) =~= old(self)@.insert(
                uri@,
                text@,
            ));
        }
        self.docs.push(Document { uri, text });
    }

    /// Replaces the text of `uri` by `text`, whole.
    pub fn update(&mut self, uri: String, text: String)
        requires
            old(self).wf(),
        ensures
            final(self).wf(),
            final(self)@ == old(self)@.insert(uri@, text@),
    {
        self.open(uri, text);
    }

    /// Removes the entry of `uri`, if there is one.
    pub fn close(&mut self, uri: &str)
        requires
            old(self).wf(),
        ensures
            final(self).wf(),
            final(self)@ == old(self)@.remove(uri@),
    {
        match self.find(uri) {
            Some(i) => {
                proof {
                    lemma_texts_remove(self.docs@, i as int);
                }
                self.docs.remove(i);
            },
            None => {
                proof {
                    lemma_texts_absent(self.docs@, uri@);
                    assert(self@ =~= self@.remove(uri@));
                }
            },
        }
    }

    /// The current text of `uri`, if the document is open.
    pub fn get(&self, uri: &str) -> (text: Option<&String>)
        requires
            self.wf(),
        ensures
            text is Some <==> self@.contains_key(uri@),
            text is Some ==> text->0@ == self@[uri@],
    {
        match self.find(uri) {
            Some(i) => {
                proof {
                    lemma_texts_present(self.docs@, i as int);
                }
                Some(&self.docs[i].text)
            },
            None => {
                proof {
                    lemma_texts_absent(self.docs@, uri@);
                }
                None
            },
        }
    }

    /// The number of open documents.
    pub fn len(&self) -> (n: usize)
        requires
            self.wf(),
        ensures
            n == self@.dom().len(),
            self@.dom().finite(),
    {
        proof {
            lemma_texts_count(self.docs@);
        }
        self.docs.len()
    }
}

/// Where the URIs are distinct, the map has as many keys as the sequence
/// has documents.
pub proof fn lemma_texts_count(docs: Seq<Document>)
    requires
        distinct_uris(docs),
    ensures
        texts_of(docs).dom().finite(),
        texts_of(docs).dom().len() == docs.len(),
    decreases docs.len(),
{
    if docs.len() > 0 {
        let init = docs.drop_last();
        assert(distinct_uris(init)) by {
            assert forall|a: int, b: int| 0 <= a < b < init.len() implies init[a].uri@
                != init[b].uri@ by {
                assert(init[a] == docs[a] && init[b] == docs[b]);
            }
        }
        lemma_texts_count(init);
        assert forall|j: int| 0 <= j < init.len() implies init[j].uri@ != docs.last().uri@ by {
            assert(init[j] == docs[j]);
        }
        lemma_texts_absent(init, docs.last().uri@);
        assert(texts_of(docs).dom() =~= texts_of(init).dom().insert(docs.last().uri@));
    }
}

/// The text of a document is the last that was stored for it: a second
/// text for one URI replaces the first whole, and the other documents keep
/// theirs.
pub proof fn lemma_last_text_stands(
    docs: Map<Seq<char>, Seq<char>>,
    uri: Seq<char>,
    first: Seq<char>,
    second: Seq<char>,
)
    ensures
        docs.insert(uri, first).insert(uri, second) == docs.insert(uri, second),
        docs.insert(uri, first).insert(uri, second)[uri] == second,
        forall|other: Seq<char>|
            other != uri && docs.contains_key(other) ==> #[trigger] docs.insert(uri, first).insert(
                uri,
                second,
            )[other] == docs[other],
{
    assert(docs.insert(uri, first).insert(uri, second) =~= docs.insert(uri, second));
}

/// Whether two texts hold the same characters.
pub fn same_text(a: &str, b: &str) -> (same: bool)
    ensures
        same == (a@ == b@),
{
    let x = crate::text::chars_of(a);
    let y = crate::text::chars_of(b);
    if x.len() != y.len() {
        return false;
    }
    let mut i: usize = 0;
    while i < x.len()
        invariant
            i <= x.len(),
            x.len() == y.len(),
            x@ == a@,
            y@ == b@,
            forall|j: int| 0 <= j < i ==> x@[j] == y@[j],
        decreases x.len() - i,
    {
        if x[i] != y[i] {
            return false;
        }
        i = i + 1;
    }
    assert(x@ =~= y@);
    true
}

} // verus!
