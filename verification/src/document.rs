//! Schema-less documents: the trees that JSON and YAML text denote.

use vstd::prelude::*;

verus! {

/// A document number. A real number is held by the bits of its IEEE 754 double, so that it is
/// carried through unchanged.
#[derive(Clone, Copy, Debug, PartialEq, Eq, Structural)]
pub enum Number {
    Integer(i128),
    Real(u64),
}

/// A document. An object keeps its entries in the order in which they were written.
#[derive(Debug, PartialEq, Eq)]
pub enum Document {
    Null,
    Bool(bool),
    Number(Number),
    Text(String),
    List(Vec<Document>),
    Object(Vec<(String, Document)>),
}

/// A `Document` as a mathematical value.
pub enum DocumentModel {
    Null,
    Bool(bool),
    Number(Number),
    Text(Seq<char>),
    List(Seq<DocumentModel>),
    Object(Seq<(Seq<char>, DocumentModel)>),
}

/// The mathematical value of a document.
pub open spec fn document_view(doc: Document) -> DocumentModel
    decreases doc,
{
    match doc {
        Document::Null => DocumentModel::Null,
        Document::Bool(b) => DocumentModel::Bool(b),
        Document::Number(n) => DocumentModel::Number(n),
        Document::Text(s) => DocumentModel::Text(s@),
        Document::List(items) => DocumentModel::List(documents_view(items@)),
        Document::Object(entries) => DocumentModel::Object(entries_view(entries@)),
    }
}

/// The mathematical values of the documents of a list.
pub open spec fn documents_view(items: Seq<Document>) -> Seq<DocumentModel>
    decreases items,
{
    if items.len() == 0 {
        Seq::empty()
    } else {
        documents_view(items.drop_last()).push(document_view(items.last()))
    }
}

/// The mathematical values of the entries of an object.
pub open spec fn entries_view(entries: Seq<(String, Document)>) -> Seq<(Seq<char>, DocumentModel)>
    decreases entries,
{
    if entries.len() == 0 {
        Seq::empty()
    } else {
        entries_view(entries.drop_last()).push(
            (entries.last().0@, document_view(entries.last().1)),
        )
    }
}

impl View for Document {
    type V = DocumentModel;

    open spec fn view(&self) -> DocumentModel {
        document_view(*self)
    }
}

/// The view of a list of documents is the list of their views.
pub proof fn lemma_documents_view(items: Seq<Document>)
    ensures
        documents_view(items).len() == items.len(),
        forall|i: int|
            0 <= i < items.len() ==> (#[trigger] documents_view(items)[i]) == items[i]@,
    decreases items.len(),
{
    if items.len() > 0 {
        lemma_documents_view(items.drop_last());
    }
}

/// The view of a list with one more document is the view of the list with one more view.
pub proof fn lemma_documents_view_push(items: Seq<Document>, last: Document)
    ensures
        documents_view(items.push(last)) == documents_view(items).push(last@),
{
    assert(items.push(last).drop_last() =~= items);
}

/// The view of a list of entries is the list of their views.
pub proof fn lemma_entries_view(entries: Seq<(String, Document)>)
    ensures
        entries_view(entries).len() == entries.len(),
        forall|i: int|
            0 <= i < entries.len() ==> (#[trigger] entries_view(entries)[i]) == (
                entries[i].0@,
                entries[i].1@,
            ),
    decreases entries.len(),
{
    if entries.len() > 0 {
        lemma_entries_view(entries.drop_last());
    }
}

/// The view of entries with one more entry is the view of the entries with one more view.
pub proof fn lemma_entries_view_push(entries: Seq<(String, Document)>, last: (String, Document))
    ensures
        entries_view(entries.push(last)) == entries_view(entries).push((last.0@, last.1@)),
{
    assert(entries.push(last).drop_last() =~= entries);
}

/// The place of the first entry under `key` at or after `start`.
pub open spec fn find_entry(
    entries: Seq<(Seq<char>, DocumentModel)>,
    key: Seq<char>,
    start: int,
) -> Option<int>
    decreases entries.len() - start,
{
    if start < 0 || start >= entries.len() {
        None
    } else if entries[start].0 == key {
        Some(start)
    } else {
        find_entry(entries, key, start + 1)
    }
}

/// What is found is the first entry under the key; nothing is found where there is none.
pub proof fn lemma_find_entry(entries: Seq<(Seq<char>, DocumentModel)>, key: Seq<char>, start: int)
    requires
        0 <= start,
    ensures
        find_entry(entries, key, start) matches Some(i) ==> start <= i < entries.len()
            && entries[i].0 == key && forall|j: int| start <= j < i ==> entries[j].0 != key,
        find_entry(entries, key, start) is None ==> forall|j: int|
            start <= j < entries.len() ==> entries[j].0 != key,
    decreases entries.len() - start,
{
    if start < entries.len() && entries[start].0 != key {
        lemma_find_entry(entries, key, start + 1);
    }
}

/// Finds the first entry under `key`.
pub fn entry_index(entries: &Vec<(String, Document)>, key: &String) -> (found: Option<usize>)
    ensures
        match found {
            Some(i) => find_entry(entries_view(entries@), key@, 0) == Some(i as int) && i
                < entries.len(),
            None => find_entry(entries_view(entries@), key@, 0) is None,
        },
{
    proof {
        lemma_entries_view(entries@);
    }
    let mut i: usize = 0;
    while i < entries.len()
        invariant
            i <= entries.len(),
            entries_view(entries@).len() == entries.len(),
            forall|j: int|
                0 <= j < entries.len() ==> (#[trigger] entries_view(entries@)[j]) == (
                    entries[j].0@,
                    entries[j].1@,
                ),
            find_entry(entries_view(entries@), key@, 0) == find_entry(
                entries_view(entries@),
                key@,
                i as int,
            ),
        decreases entries.len() - i,
    {
        if entries[i].0 == *key {
            return Some(i);
        }
        i = i + 1;
    }
    None
}

} // verus!
