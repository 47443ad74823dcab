//! File records: the metadata of one accepted entry, built from a single
//! snapshot of plain values, and its JSON object text.

use vstd::prelude::*;
use vstd::string::*;
use crate::json::{append_json_string, bool_text, json_member, json_string};
use crate::text::{dec_rep, extension_of, extension_of_path, file_name, file_name_of, u128_to_string};
use crate::timefmt::{time_field, time_text, TimeStamp};

verus! {

/// The metadata of one entry could not be read; the entry is skipped.
#[derive(Clone, Copy, PartialEq, Eq, Structural, Debug)]
pub enum ExtractionError {
    Unreadable,
}

/// One metadata snapshot of a filesystem entry, taken in a single read:
/// every record field is derived from it alone.
#[derive(Clone, Copy)]
pub struct MetaSnapshot {
    pub size: u64,
    pub created: TimeStamp,
    pub accessed: TimeStamp,
    pub modified: TimeStamp,
    pub read_only: bool,
}

/// The mathematical image of a file record.
pub ghost struct FileMetadataView {
    pub name: Seq<char>,
    pub full_path: Seq<char>,
    pub extension: Seq<char>,
    pub size: u64,
    pub creation_time: Seq<char>,
    pub last_access: Seq<char>,
    pub last_write: Seq<char>,
    pub is_read_only: bool,
}

/// The metadata record of one file, immutable once constructed.
pub struct FileMetadata {
    name: String,
    pub full_path: String,
    pub extension: String,
    size: u64,
    creation_time: String,
    last_access: String,
    last_write: String,
    is_read_only: bool,
}

impl View for FileMetadata {
    type V = FileMetadataView;

    closed spec fn view(&self) -> FileMetadataView {
        FileMetadataView {
            name: self.name@,
            full_path: self.full_path@,
            extension: self.extension@,
            size: self.size,
            creation_time: self.creation_time@,
            last_access: self.last_access@,
            last_write: self.last_write@,
            is_read_only: self.is_read_only,
        }
    }
}

/// The record that a path and a snapshot determine: name and extension
/// come from the path (the extension empty when the name has none), the
/// timestamps are rendered, size and read-only flag carried over.
pub open spec fn record_of(path: Seq<char>, m: MetaSnapshot) -> FileMetadataView {
    FileMetadataView {
        name: file_name_of(path),
        full_path: path,
        extension: match extension_of_path(path) {
            Some(e) => e,
            None => Seq::<char>::empty(),
        },
        size: m.size,
        creation_time: time_text(m.created),
        last_access: time_text(m.accessed),
        last_write: time_text(m.modified),
        is_read_only: m.read_only,
    }
}

/// The JSON object text of a record: its eight members in order.
pub open spec fn json_of_record(r: FileMetadataView) -> Seq<char> {
    seq!['{'] + json_member("name"@, json_string(r.name)) + seq![','] + json_member(
        "full_path"@,
        json_string(r.full_path),
    ) + seq![','] + json_member("extension"@, json_string(r.extension)) + seq![','] + json_member(
        "size"@,
        dec_rep(r.size as nat),
    ) + seq![','] + json_member("creation_time"@, json_string(r.creation_time)) + seq![',']
        + json_member("last_access"@, json_string(r.last_access)) + seq![','] + json_member(
        "last_write"@,
        json_string(r.last_write),
    ) + seq![','] + json_member("is_read_only"@, bool_text(r.is_read_only)) + seq!['}']
}

impl FileMetadata {
    /// Builds the record of `path` from one metadata snapshot.
    pub fn from_snapshot(path: String, meta: &MetaSnapshot) -> (r: FileMetadata)
        ensures
            r@ == record_of(path@, *meta),
    {
        let name = file_name(path.as_str());
        let extension = match extension_of(name.as_str()) {
            Some(e) => e,
            None => String::new(),
        };
        FileMetadata {
            name,
            full_path: path,
            extension,
            size: meta.size,
            creation_time: time_field(&meta.created),
            last_access: time_field(&meta.accessed),
            last_write: time_field(&meta.modified),
            is_read_only: meta.read_only,
        }
    }

    /// Builds the record of `path` from the attempt to read its metadata:
    /// the record exactly when the snapshot could be taken, the error
    /// exactly when it could not.
    pub fn metadata_from_path(path: String, meta: &Result<MetaSnapshot, ExtractionError>) -> (r:
        Result<FileMetadata, ExtractionError>)
        ensures
            match r {
                Ok(rec) => (*meta) is Ok && rec@ == record_of(path@, (*meta)->Ok_0),
                Err(e) => (*meta) is Err && e == ExtractionError::Unreadable,
            },
    {
        match meta {
            Ok(m) => Ok(FileMetadata::from_snapshot(path, m)),
            Err(_) => Err(ExtractionError::Unreadable),
        }
    }

    pub fn name(&self) -> (r: &String)
        ensures
            r@ == self@.name,
    {
        &self.name
    }

    pub fn size(&self) -> (r: u64)
        ensures
            r == self@.size,
    {
        self.size
    }

    pub fn is_read_only(&self) -> (r: bool)
        ensures
            r == self@.is_read_only,
    {
        self.is_read_only
    }

    /// The JSON object text of this record.
    #[verifier::rlimit(60)]
    pub fn to_json(&self) -> (s: String)
        ensures
            s@ == json_of_record(self@),
    {
        proof {
            reveal_strlit("{");
            reveal_strlit(":");
            reveal_strlit(",");
            reveal_strlit("}");
            reveal_strlit("true");
            reveal_strlit("false");
        }
        let mut s = String::from_str("{");
        append_json_string(&mut s, "name");
        s.append(":");
        append_json_string(&mut s, self.name.as_str());
        s.append(",");
        append_json_string(&mut s, "full_path");
        s.append(":");
        append_json_string(&mut s, self.full_path.as_str());
        s.append(",");
        append_json_string(&mut s, "extension");
        s.append(":");
        append_json_string(&mut s, self.extension.as_str());
        s.append(",");
        append_json_string(&mut s, "size");
        s.append(":");
        let digits = u128_to_string(self.size as u128);
        s.append(digits.as_str());
        s.append(",");
        append_json_string(&mut s, "creation_time");
        s.append(":");
        append_json_string(&mut s, self.creation_time.as_str());
        s.append(",");
        append_json_string(&mut s, "last_access");
        s.append(":");
        append_json_string(&mut s, self.last_access.as_str());
        s.append(",");
        append_json_string(&mut s, "last_write");
        s.append(":");
        append_json_string(&mut s, self.last_write.as_str());
        s.append(",");
        append_json_string(&mut s, "is_read_only");
        s.append(":");
        if self.is_read_only {
            s.append("true");
        } else {
            s.append("false");
        }
        s.append("}");
        proof {
            assert(s@ =~= json_of_record(self@));
        }
        s
    }
}

} // verus!
