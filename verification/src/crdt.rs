use vstd::prelude::*;
use vstd::string::StringExecFns;
use std::collections::HashMap;
use std::collections::hash_map::Entry;
use yrs::updates::decoder::Decode;
use yrs::updates::encoder::Encode;
use yrs::{Doc, GetString, ReadTxn, StateVector, Text, Transact, Update};

verus! {

broadcast use vstd::std_specs::hash::group_hash_axioms;

#[verifier::external_type_specification]
#[verifier::external_body]
pub struct ExDoc(Doc);

#[verifier::external_type_specification]
#[verifier::external_body]
pub struct ExUpdate(Update);

#[verifier::external_type_specification]
#[verifier::external_body]
pub struct ExStateVector(StateVector);

/// The text held under the name `content` in a yrs document.
pub uninterp spec fn doc_text(doc: Doc) -> Seq<char>;

/// A new yrs document (`Doc::new`); it holds no text yet.
#[verifier::external_body]
fn new_doc() -> (d: Doc)
    ensures
        doc_text(d) == Seq::<char>::empty(),
{
    Doc::new()
}

/// Appends `text` to the document's `content` text with yrs's `Text::push`
/// (an insertion at the end), in a write transaction.
#[verifier::external_body]
fn push_text(doc: &mut Doc, text: &str)
    ensures
        doc_text(*final(doc)) == doc_text(*old(doc)) + text@,
{
    let content = doc.get_or_insert_text("content");
    let mut txn = doc.transact_mut();
    content.push(&mut txn, text);
}

/// Reads the document's `content` text with yrs's `GetString::get_string`.
#[verifier::external_body]
fn read_text(doc: &Doc) -> (r: String)
    ensures
        r@ == doc_text(*doc),
{
    let content = doc.get_or_insert_text("content");
    let txn = doc.transact();
    content.get_string(&txn)
}

/// What yrs's `Update::decode_v1` does with the bytes: `Some(true)` when it
/// returns an update, `Some(false)` when it returns an error, and `None`
/// when it does not return (a block clock that passes `u32::MAX` overflows).
pub uninterp spec fn update_decoding(data: Seq<u8>) -> Option<bool>;

/// The text a document holds after the update in `data` is merged into it
/// with yrs's `TransactionMut::apply_update`.
pub uninterp spec fn text_after_update(doc: Doc, data: Seq<u8>) -> Seq<char>;

/// Decodes `data` with yrs's `Update::decode_v1` and, when that succeeds,
/// merges the update into the document with `TransactionMut::apply_update`
/// (whose own error on blocks it cannot integrate yet is ignored: yrs keeps
/// them pending). Returns whether the bytes decoded; a document whose bytes
/// did not decode is left as it was. The `requires` leaves out the bytes on
/// which decoding does not return; whether integration can fail to return
/// on some update that does decode (it unwraps in places whose safety the
/// yrs source does not show) is not stated, and no input is left out for it.
#[verifier::external_body]
fn merge_update(doc: &mut Doc, data: &[u8]) -> (r: bool)
    requires
        update_decoding(data@) is Some,
    ensures
        r <==> update_decoding(data@) == Some(true),
        r ==> doc_text(*final(doc)) == text_after_update(*old(doc), data@),
        !r ==> *final(doc) == *old(doc),
{
    match Update::decode_v1(data) {
        Ok(update) => {
            let mut txn = doc.transact_mut();
            let _ = txn.apply_update(update);
            true
        },
        Err(_) => false,
    }
}

/// The document's state vector, v1-encoded (yrs's `ReadTxn::state_vector`
/// and `Encode::encode_v1`). What it holds depends on the document's random
/// client id and is not stated; that yrs's `StateVector::decode_v1` reads it
/// back is.
#[verifier::external_body]
fn state_vector_bytes(doc: &Doc) -> (r: Vec<u8>)
    ensures
        state_vector_decodes(r@),
{
    let txn = doc.transact();
    txn.state_vector().encode_v1()
}

/// Whether yrs's `StateVector::decode_v1` accepts the bytes as a state
/// vector.
pub uninterp spec fn state_vector_decodes(data: Seq<u8>) -> bool;

/// Decodes a v1-encoded state vector with yrs's `StateVector::decode_v1`;
/// none when the bytes are no state vector. Which bytes decode is named,
/// not stated.
#[verifier::external_body]
fn decode_state_vector(data: &[u8]) -> (r: Option<StateVector>)
    ensures
        r is Some <==> state_vector_decodes(data@),
{
    StateVector::decode_v1(data).ok()
}

/// The updates a peer with state vector `sv` lacks, v1-encoded (yrs's
/// `ReadTxn::encode_diff_v1`). Which blocks it holds is not stated; that
/// yrs's `Update::decode_v1` reads it back, as yrs's README does with such
/// bytes, is.
#[verifier::external_body]
fn diff_bytes(doc: &Doc, sv: &StateVector) -> (r: Vec<u8>)
    ensures
        update_decoding(r@) == Some(true),
{
    let txn = doc.transact();
    txn.encode_diff_v1(sv)
}

/// The bytes of a document's whole state as one v1-encoded update.
pub uninterp spec fn full_update_of(doc: Doc) -> Seq<u8>;

/// The whole document as one v1-encoded update (yrs's
/// `ReadTxn::encode_state_as_update_v1` against the empty state vector,
/// which writes the blocks by client and the delete set in a fixed order).
/// Which blocks it holds is named, not stated; that yrs's
/// `Update::decode_v1` reads it back is stated.
#[verifier::external_body]
fn full_update_bytes(doc: &Doc) -> (r: Vec<u8>)
    ensures
        r@ == full_update_of(*doc),
        update_decoding(r@) == Some(true),
{
    let txn = doc.transact();
    txn.encode_state_as_update_v1(&StateVector::default())
}

/// Bytes that yrs could not decode.
pub enum CrdtError {
    InvalidUpdate,
    InvalidStateVector,
}

impl CrdtError {
    /// The message shown for the error.
    pub fn message(&self) -> (r: String)
        ensures
            r@ == match self {
                CrdtError::InvalidUpdate => "failed to decode update"@,
                CrdtError::InvalidStateVector => "failed to decode state vector"@,
            },
    {
        match self {
            CrdtError::InvalidUpdate => String::from_str("failed to decode update"),
            CrdtError::InvalidStateVector => String::from_str("failed to decode state vector"),
        }
    }
}

/// The shared text of one buffer.
pub struct CrdtDocument {
    doc: Doc,
    buffer_id: u64,
}

impl CrdtDocument {
    /// The text the document holds.
    pub closed spec fn text(&self) -> Seq<char> {
        doc_text(self.doc)
    }

    /// The yrs document behind the text.
    pub closed spec fn state(&self) -> Doc {
        self.doc
    }

    /// The buffer the document belongs to.
    pub closed spec fn buffer(&self) -> u64 {
        self.buffer_id
    }

    /// An empty document for a buffer.
    pub fn new(buffer_id: u64) -> (r: Self)
        ensures
            r.text() == Seq::<char>::empty(),
            r.buffer() == buffer_id,
    {
        CrdtDocument { doc: new_doc(), buffer_id }
    }

    /// Adds `text` at the end of the document's text.
    pub fn set_text(&mut self, text: &str)
        ensures
            final(self).text() == old(self).text() + text@,
            final(self).buffer() == old(self).buffer(),
    {
        push_text(&mut self.doc, text);
    }

    /// The document's text.
    pub fn get_text(&self) -> (r: String)
        ensures
            r@ == self.text(),
    {
        read_text(&self.doc)
    }

    /// Merges an update from a peer.
    pub fn apply_update(&mut self, data: &[u8]) -> (r: Result<(), CrdtError>)
        requires
            update_decoding(data@) is Some,
        ensures
            final(self).buffer() == old(self).buffer(),
            r is Ok <==> update_decoding(data@) == Some(true),
            r is Ok ==> final(self).text() == text_after_update(old(self).state(), data@),
            r matches Err(e) ==> e is InvalidUpdate && final(self).state() == old(self).state(),
    {
        if merge_update(&mut self.doc, data) {
            Ok(())
        } else {
            Err(CrdtError::InvalidUpdate)
        }
    }

    /// Merges everything another document holds into this one.
    pub fn merge_from(&mut self, other: &CrdtDocument)
        ensures
            final(self).buffer() == old(self).buffer(),
            final(self).text() == text_after_update(old(self).state(), full_update_of(other.state())),
    {
        let data = other.encode_all();
        let _ = self.apply_update(data.as_slice());
    }

    /// The document's state vector, for a peer to compute what it lacks.
    pub fn encode_state_vector(&self) -> (r: Vec<u8>)
        ensures
            state_vector_decodes(r@),
    {
        state_vector_bytes(&self.doc)
    }

    /// The updates that a peer with state vector `sv` lacks.
    pub fn encode_diff(&self, sv: &[u8]) -> (r: Result<Vec<u8>, CrdtError>)
        ensures
            r is Ok <==> state_vector_decodes(sv@),
            r matches Ok(b) ==> update_decoding(b@) == Some(true),
            r matches Err(e) ==> e is InvalidStateVector,
    {
        match decode_state_vector(sv) {
            Some(v) => Ok(diff_bytes(&self.doc, &v)),
            None => Err(CrdtError::InvalidStateVector),
        }
    }

    /// The whole document as one update.
    pub fn encode_all(&self) -> (r: Vec<u8>)
        ensures
            r@ == full_update_of(self.state()),
            update_decoding(r@) == Some(true),
    {
        full_update_bytes(&self.doc)
    }
}

/// The shared documents of a session, by buffer.
pub struct CrdtSync {
    documents: HashMap<u64, CrdtDocument>,
}

impl CrdtSync {
    /// The buffers that have a document.
    pub closed spec fn buffers(&self) -> Set<u64> {
        self.documents@.dom()
    }

    /// The text of each buffer's document.
    pub closed spec fn texts(&self) -> Map<u64, Seq<char>> {
        Map::new(|b: u64| self.documents@.contains_key(b), |b: u64| self.documents@[b].text())
    }

    /// The yrs document behind each buffer's text.
    pub closed spec fn states(&self) -> Map<u64, Doc> {
        Map::new(|b: u64| self.documents@.contains_key(b), |b: u64| self.documents@[b].state())
    }

    /// Whether each document is filed under its own buffer.
    pub closed spec fn wf(&self) -> bool {
        forall|b: u64| #[trigger] self.documents@.contains_key(b) ==> self.documents@[b].buffer() == b
    }

    /// No documents.
    pub fn new() -> (r: Self)
        ensures
            r.wf(),
            r.texts() == Map::<u64, Seq<char>>::empty(),
    {
        let r = CrdtSync { documents: HashMap::new() };
        proof {
            assert(r.texts() =~= Map::<u64, Seq<char>>::empty());
        }
        r
    }

    /// The document of a buffer, made (empty) when it has none. The
    /// document stays filed under the buffer with whatever the caller
    /// leaves in it.
    pub fn get_or_create(&mut self, buffer_id: u64) -> (r: &mut CrdtDocument)
        requires
            old(self).wf(),
        ensures
            old(self).texts().contains_key(buffer_id) ==> (*r).text() == old(self).texts()[buffer_id]
                && (*r).state() == old(self).states()[buffer_id],
            !old(self).texts().contains_key(buffer_id) ==> (*r).text() == Seq::<char>::empty(),
            (*r).buffer() == buffer_id,
            final(self).texts() == old(self).texts().insert(buffer_id, final(r).text()),
            final(self).states() == old(self).states().insert(buffer_id, final(r).state()),
            final(r).buffer() == buffer_id ==> final(self).wf(),
    {
        let entry = self.documents.entry(buffer_id);
        let r = match entry {
            Entry::Occupied(o) => o.into_mut(),
            Entry::Vacant(v) => v.insert(CrdtDocument::new(buffer_id)),
        };
        r
    }

    /// The document of a buffer.
    pub fn get(&self, buffer_id: u64) -> (r: Option<&CrdtDocument>)
        ensures
            match r {
                Some(d) => self.texts().contains_key(buffer_id) && d.text() == self.texts()[buffer_id],
                None => !self.texts().contains_key(buffer_id),
            },
    {
        self.documents.get(&buffer_id)
    }

    /// Adds text at the end of a buffer's document, creating the document
    /// first when there is none.
    pub fn append_text(&mut self, buffer_id: u64, text: &str)
        requires
            old(self).wf(),
        ensures
            final(self).wf(),
            final(self).texts() == old(self).texts().insert(
                buffer_id,
                (if old(self).texts().contains_key(buffer_id) {
                    old(self).texts()[buffer_id]
                } else {
                    Seq::<char>::empty()
                }) + text@,
            ),
    {
        let mut doc = match self.documents.remove(&buffer_id) {
            Some(d) => d,
            None => CrdtDocument::new(buffer_id),
        };
        doc.set_text(text);
        self.documents.insert(buffer_id, doc);
        proof {
            assert forall|b: u64| #[trigger] self.documents@.contains_key(b) implies self.documents@[b].buffer()
                == b by {
                if b != buffer_id {
                    assert(old(self).documents@.contains_key(b));
                }
            }
            assert(self.texts() =~= old(self).texts().insert(
                buffer_id,
                (if old(self).texts().contains_key(buffer_id) {
                    old(self).texts()[buffer_id]
                } else {
                    Seq::<char>::empty()
                }) + text@,
            ));
        }
    }

    /// The state vector of a buffer's document, when it has one (the first
    /// step of a sync).
    pub fn sync_step1(&self, buffer_id: u64) -> (r: Option<Vec<u8>>)
        ensures
            r is Some <==> self.texts().contains_key(buffer_id),
            r matches Some(b) ==> state_vector_decodes(b@),
    {
        match self.documents.get(&buffer_id) {
            Some(d) => Some(d.encode_state_vector()),
            None => None,
        }
    }

    /// Merges a peer's update into a buffer's document, when it has one
    /// (the second step of a sync).
    pub fn sync_step2(&mut self, buffer_id: u64, data: &[u8]) -> (r: Option<Result<(), CrdtError>>)
        requires
            old(self).wf(),
            update_decoding(data@) is Some,
        ensures
            final(self).wf(),
            r is Some <==> old(self).texts().contains_key(buffer_id),
            r is None ==> final(self).texts() == old(self).texts(),
            r matches Some(res) ==> (res is Ok <==> update_decoding(data@) == Some(true)),
            r matches Some(Ok(())) ==> final(self).texts()[buffer_id] == text_after_update(
                old(self).states()[buffer_id],
                data@,
            ),
            r matches Some(Err(e)) ==> e is InvalidUpdate && final(self).texts()[buffer_id] == old(
                self,
            ).texts()[buffer_id],
            final(self).buffers() == old(self).buffers(),
            forall|b: u64| b != buffer_id && #[trigger] old(self).texts().contains_key(b) ==> final(self).texts()[b]
                == old(self).texts()[b],
    {
        match self.documents.remove(&buffer_id) {
            Some(mut d) => {
                let r = d.apply_update(data);
                self.documents.insert(buffer_id, d);
                proof {
                    assert forall|b: u64| #[trigger] self.documents@.contains_key(b) implies self.documents@[b].buffer()
                        == b by {
                        if b != buffer_id {
                            assert(old(self).documents@.contains_key(b));
                        }
                    }
                    assert(self.buffers() =~= old(self).buffers());
                }
                Some(r)
            },
            None => {
                proof {
                    assert(self.texts() =~= old(self).texts());
                }
                None
            },
        }
    }

    /// Brings a buffer's document up to date with another document, when
    /// the buffer has one: the second step of a sync fed with everything
    /// `from` holds. Returns whether the buffer had a document.
    pub fn sync_from_document(&mut self, buffer_id: u64, from: &CrdtDocument) -> (r: bool)
        requires
            old(self).wf(),
        ensures
            final(self).wf(),
            r <==> old(self).texts().contains_key(buffer_id),
            !r ==> final(self).texts() == old(self).texts(),
            r ==> final(self).texts()[buffer_id] == text_after_update(
                old(self).states()[buffer_id],
                full_update_of(from.state()),
            ),
            final(self).buffers() == old(self).buffers(),
            forall|b: u64| b != buffer_id && #[trigger] old(self).texts().contains_key(b) ==> final(self).texts()[b]
                == old(self).texts()[b],
    {
        let data = from.encode_all();
        let r = self.sync_step2(buffer_id, data.as_slice());
        match r {
            Some(_) => true,
            None => false,
        }
    }

    /// Drops a buffer's document.
    pub fn remove(&mut self, buffer_id: u64)
        requires
            old(self).wf(),
        ensures
            final(self).wf(),
            final(self).texts() == old(self).texts().remove(buffer_id),
    {
        self.documents.remove(&buffer_id);
        proof {
            assert(self.texts() =~= old(self).texts().remove(buffer_id));
        }
    }
}

/// What is written into a new buffer's document is what it reads back.
pub proof fn lemma_new_document_reads_back(text: Seq<char>)
    ensures
        Seq::<char>::empty() + text == text,
{
    assert(Seq::<char>::empty() + text =~= text);
}

} // verus!
