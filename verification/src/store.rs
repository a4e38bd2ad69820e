//! The document store: a concurrent map from document identity to document,
//! with independently lockable entries so that operations on one document
//! never block another. The single dispatch loop drives it one message at a
//! time; its model is the map from identity to document model.

use vstd::prelude::*;

use crate::document::{
    doc_wf, edit_models, spec_document_new, spec_document_update, Document, DocumentError,
    DocumentModel, Edit,
};
use crate::hover::{hover_view, resolve, spec_resolve, HoverOutcome};
use crate::symbols::Position;

verus! {

#[verifier::external_type_specification]
#[verifier::external_body]
#[verifier::reject_recursive_types(K)]
#[verifier::reject_recursive_types(V)]
#[verifier::reject_recursive_types(S)]
pub struct ExDashMap<K, V, S>(dashmap::DashMap<K, V, S>);

/// The shared map type: document identities to documents.
pub type SharedMap = dashmap::DashMap<String, Document>;

/// The entries held by the shared map, keyed by identity.
pub uninterp spec fn store_map(m: SharedMap) -> Map<Seq<char>, Document>;

/// Relies on dashmap::DashMap::new: the new map is empty.
#[verifier::external_body]
fn store_new() -> (r: SharedMap)
    ensures
        store_map(r) == (Map::<Seq<char>, Document>::empty()),
{
    dashmap::DashMap::new()
}

/// Relies on dashmap::DashMap::insert: maps the key to the value,
/// replacing any prior entry for that key.
#[verifier::external_body]
fn store_insert(m: &mut SharedMap, key: String, doc: Document)
    ensures
        store_map(*final(m)) == store_map(*old(m)).insert(key@, doc),
{
    m.insert(key, doc);
}

/// Relies on dashmap::DashMap::get: a read-only borrow of the entry for
/// the key, handed back as a model-equal copy made by the library's own
/// verified `Document::duplicate`.
#[verifier::external_body]
fn store_read(m: &SharedMap, key: &String) -> (r: Option<Document>)
    ensures
        store_map(*m).dom().contains(key@) ==> r is Some && r->0@ == store_map(*m)[key@]@,
        !store_map(*m).dom().contains(key@) ==> r is None,
{
    m.get(key).map(|entry| entry.value().duplicate())
}

/// Relies on dashmap::DashMap::remove: takes the entry for the key out of
/// the map and returns its value, or returns nothing when the key is
/// absent.
#[verifier::external_body]
fn store_remove(m: &mut SharedMap, key: &String) -> (r: Option<Document>)
    ensures
        store_map(*old(m)).dom().contains(key@) ==> r == Some(store_map(*old(m))[key@])
            && store_map(*final(m)) == store_map(*old(m)).remove(key@),
        !store_map(*old(m)).dom().contains(key@) ==> r is None && store_map(*final(m))
            == store_map(*old(m)),
{
    m.remove(key).map(|kv| kv.1)
}

/// The store of open documents, one entry per identity.
pub struct DocumentStore {
    documents: SharedMap,
}

impl View for DocumentStore {
    type V = Map<Seq<char>, DocumentModel>;

    closed spec fn view(&self) -> Map<Seq<char>, DocumentModel> {
        store_map(self.documents).map_values(|d: Document| d@)
    }
}

impl DocumentStore {
    /// Every stored document's line index matches its text.
    pub open spec fn wf(&self) -> bool {
        forall|k: Seq<char>| self@.dom().contains(k) ==> doc_wf(#[trigger] self@[k])
    }

    /// Creates an empty store.
    pub fn new() -> (s: DocumentStore)
        ensures
            s@ == Map::<Seq<char>, DocumentModel>::empty(),
            s.wf(),
    {
        let s = DocumentStore { documents: store_new() };
        proof {
            assert(s@ =~= Map::<Seq<char>, DocumentModel>::empty());
        }
        s
    }

    /// Opens a document: constructs it from the entire initial text and
    /// stores it under its identity, replacing any prior entry.
    pub fn did_open(&mut self, identity: String, text: String)
        requires
            old(self).wf(),
        ensures
            final(self).wf(),
            final(self)@ == old(self)@.insert(identity@, spec_document_new(identity@, text@)),
    {
        let ghost gid = identity@;
        let ghost gtext = text@;
        let doc = Document::new(identity.clone(), text);
        store_insert(&mut self.documents, identity, doc);
        proof {
            assert(self@ =~= old(self)@.insert(gid, spec_document_new(gid, gtext)));
        }
    }

    /// Applies an edit batch to the document of the given identity. Returns
    /// nothing when the identity is unknown; otherwise reports whether the
    /// new text parsed, or that a malformed batch was rejected leaving the
    /// document unchanged.
    pub fn did_change(&mut self, identity: &String, changes: &Vec<Edit>) -> (r: Option<
        Result<bool, DocumentError>,
    >)
        requires
            old(self).wf(),
        ensures
            final(self).wf(),
            !old(self)@.dom().contains(identity@) ==> r is None && final(self)@ == old(self)@,
            old(self)@.dom().contains(identity@) ==> match spec_document_update(
                old(self)@[identity@],
                edit_models(changes@),
            ) {
                None => r == Some(Err::<bool, DocumentError>(DocumentError::MalformedEdit))
                    && final(self)@ == old(self)@,
                Some(m2) => r == Some(Ok::<bool, DocumentError>(m2.tree is Some)) && final(self)@
                    == old(self)@.insert(identity@, m2),
            },
    {
        let ghost gid = identity@;
        match store_remove(&mut self.documents, identity) {
            None => {
                proof {
                    assert(self@ =~= old(self)@);
                }
                None
            },
            Some(mut doc) => {
                proof {
                    assert(old(self)@[gid] == doc@);
                }
                let res = doc.update(changes);
                store_insert(&mut self.documents, identity.clone(), doc);
                proof {
                    match spec_document_update(old(self)@[gid], edit_models(changes@)) {
                        None => {
                            assert(self@ =~= old(self)@);
                        },
                        Some(m2) => {
                            assert(self@ =~= old(self)@.insert(gid, m2));
                        },
                    }
                }
                Some(res)
            },
        }
    }

    /// Answers a hover query against the document of the given identity,
    /// reading the entry without taking it: queries on one document proceed
    /// without blocking work on any other. Returns nothing when the
    /// identity is unknown.
    pub fn hover(&self, identity: &String, position: Position) -> (r: Option<
        Result<HoverOutcome, DocumentError>,
    >)
        requires
            self.wf(),
        ensures
            !self@.dom().contains(identity@) ==> r is None,
            self@.dom().contains(identity@) ==> r is Some && hover_view(r->0) == spec_resolve(
                self@[identity@],
                position@,
            ),
    {
        let ghost gid = identity@;
        match store_read(&self.documents, identity) {
            None => None,
            Some(doc) => {
                proof {
                    assert(self@[gid] == doc@);
                }
                Some(resolve(&doc, position))
            },
        }
    }

    /// Closes a document: removes its entry, if any.
    pub fn did_close(&mut self, identity: &String)
        requires
            old(self).wf(),
        ensures
            final(self).wf(),
            final(self)@ == old(self)@.remove(identity@),
    {
        let ghost gid = identity@;
        let _removed = store_remove(&mut self.documents, identity);
        proof {
            assert(self@ =~= old(self)@.remove(gid));
        }
    }
}

} // verus!
