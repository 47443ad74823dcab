//! The streaming JSON array writer. Each operation hands back exactly the
//! text to add to the output sink; whatever happens to individual records,
//! once `finalize` has run the concatenation of all chunks is one
//! syntactically complete JSON array, the empty array included.

use vstd::prelude::*;
use vstd::string::*;
use crate::record::{json_of_record, FileMetadata, FileMetadataView};

verus! {

/// The comma-joined object texts of a record list.
pub open spec fn records_body(rs: Seq<FileMetadataView>) -> Seq<char>
    decreases rs.len(),
{
    if rs.len() == 0 {
        Seq::<char>::empty()
    } else if rs.len() == 1 {
        json_of_record(rs[0])
    } else {
        records_body(rs.drop_last()) + seq![','] + json_of_record(rs.last())
    }
}

/// The complete document of a record list: one bracketed JSON array.
pub open spec fn json_document(rs: Seq<FileMetadataView>) -> Seq<char> {
    seq!['['] + records_body(rs) + seq![']']
}

/// An incremental writer for one JSON array of records.
pub struct JsonArrayWriter {
    wrote_any: bool,
    finished: bool,
    records: Ghost<Seq<FileMetadataView>>,
    emitted: Ghost<Seq<char>>,
}

impl JsonArrayWriter {
    /// The records appended so far.
    pub closed spec fn records(&self) -> Seq<FileMetadataView> {
        self.records@
    }

    /// The concatenation of every chunk handed out so far.
    pub closed spec fn emitted(&self) -> Seq<char> {
        self.emitted@
    }

    pub closed spec fn finished(&self) -> bool {
        self.finished
    }

    pub closed spec fn wf(&self) -> bool {
        &&& self.wrote_any == (self.records@.len() > 0)
        &&& if self.finished {
            self.emitted@ == json_document(self.records@)
        } else {
            self.emitted@ == seq!['['] + records_body(self.records@)
        }
    }

    /// Opens the array. The returned chunk is the document's opening text.
    pub fn new() -> (r: (JsonArrayWriter, String))
        ensures
            r.0.wf(),
            !r.0.finished(),
            r.0.records() == Seq::<FileMetadataView>::empty(),
            r.0.emitted() == r.1@,
            r.1@ == seq!['['],
    {
        proof {
            reveal_strlit("[");
        }
        let chunk = String::from_str("[");
        proof {
            assert(chunk@ =~= seq!['[']);
            assert(chunk@ =~= seq!['['] + records_body(Seq::<FileMetadataView>::empty()));
        }
        let w = JsonArrayWriter {
            wrote_any: false,
            finished: false,
            records: Ghost(Seq::empty()),
            emitted: Ghost(chunk@),
        };
        (w, chunk)
    }

    /// Appends one record. The returned chunk is exactly the text that the
    /// record adds to the document: the record's object, preceded by a
    /// comma when a record came before it.
    pub fn append(&mut self, rec: &FileMetadata) -> (chunk: String)
        requires
            old(self).wf(),
            !old(self).finished(),
        ensures
            final(self).wf(),
            !final(self).finished(),
            final(self).records() == old(self).records().push(rec@),
            final(self).emitted() == old(self).emitted() + chunk@,
            chunk@ == if old(self).records().len() == 0 {
                json_of_record(rec@)
            } else {
                seq![','] + json_of_record(rec@)
            },
    {
        let mut chunk = String::new();
        if self.wrote_any {
            proof {
                reveal_strlit(",");
            }
            chunk.append(",");
            proof {
                assert(chunk@ =~= seq![',']);
            }
        }
        let body = rec.to_json();
        chunk.append(body.as_str());
        self.wrote_any = true;
        proof {
            let rs = self.records@;
            self.records = Ghost(rs.push(rec@));
            self.emitted = Ghost(self.emitted@ + chunk@);
            if rs.len() == 0 {
                assert(chunk@ =~= json_of_record(rec@));
                assert(records_body(rs.push(rec@)) == json_of_record(rec@));
            } else {
                assert(rs.push(rec@).drop_last() =~= rs);
                assert(records_body(rs.push(rec@)) == records_body(rs) + seq![','] + json_of_record(
                    rec@,
                ));
                assert(chunk@ =~= seq![','] + json_of_record(rec@));
            }
            assert(self.emitted@ =~= seq!['['] + records_body(self.records@));
        }
        chunk
    }

    /// Closes the array. The returned chunk is the document's closing text;
    /// after it, the emission is the complete document of the appended
    /// records, a syntactically valid JSON array even when none were.
    pub fn finalize(&mut self) -> (chunk: String)
        requires
            old(self).wf(),
            !old(self).finished(),
        ensures
            final(self).wf(),
            final(self).finished(),
            final(self).records() == old(self).records(),
            final(self).emitted() == old(self).emitted() + chunk@,
            final(self).emitted() == json_document(old(self).records()),
            chunk@ == seq![']'],
    {
        proof {
            reveal_strlit("]");
        }
        let chunk = String::from_str("]");
        self.finished = true;
        proof {
            assert(chunk@ =~= seq![']']);
            self.emitted = Ghost(self.emitted@ + chunk@);
            assert(self.emitted@ =~= json_document(self.records@));
        }
        chunk
    }
}

/// Law: every run that reaches `finalize` has emitted, in order, exactly
/// the document of its appended records: it opens with `[`, closes with
/// `]`, and holds the records' objects comma-separated between them.
pub proof fn lemma_finalized_document(w: JsonArrayWriter)
    requires
        w.wf(),
        w.finished(),
    ensures
        w.emitted() == json_document(w.records()),
        w.emitted().len() >= 2,
        w.emitted()[0] == '[',
        w.emitted().last() == ']',
{
    assert(w.emitted()[0] == '[');
    assert(w.emitted().last() == ']');
}

/// Law: the document of no records is the empty array `[]`.
pub proof fn lemma_empty_document()
    ensures
        json_document(Seq::<FileMetadataView>::empty()) =~= seq!['[', ']'],
{
}

} // verus!
