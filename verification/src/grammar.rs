//! A JSON grammar fragment, stated over plain text: strings, integer
//! numbers, booleans, flat objects of such atoms, and one array of such
//! objects. The emitted document is proved to lie in this fragment, so
//! any JSON parser accepts it with an array at the top level.

use vstd::prelude::*;
use crate::json::{bool_text, escape_char, escape_text, json_member, json_string};
use crate::record::{json_of_record, FileMetadataView};
use crate::text::{dec_digit, dec_rep};
use crate::writer::{json_document, records_body};

verus! {

/// A hexadecimal digit character.
pub open spec fn is_hex_char(c: char) -> bool {
    ('0' <= c && c <= '9') || ('a' <= c && c <= 'f') || ('A' <= c && c <= 'F')
}

/// A character that may stand unescaped inside a JSON string.
pub open spec fn is_plain_char(c: char) -> bool {
    c != '"' && c != '\\' && (c as u32) >= 32
}

/// The interior of a JSON string: plain characters and escapes.
pub open spec fn is_string_body(s: Seq<char>) -> bool
    decreases s.len(),
{
    if s.len() == 0 {
        true
    } else if s[0] == '\\' {
        (s.len() >= 2 && (s[1] == '"' || s[1] == '\\' || s[1] == '/' || s[1] == 'b' || s[1] == 'f'
            || s[1] == 'n' || s[1] == 'r' || s[1] == 't') && is_string_body(s.skip(2)))
        || (s.len() >= 6 && s[1] == 'u' && is_hex_char(s[2]) && is_hex_char(s[3]) && is_hex_char(
            s[4],
        ) && is_hex_char(s[5]) && is_string_body(s.skip(6)))
    } else {
        is_plain_char(s[0]) && is_string_body(s.skip(1))
    }
}

/// A JSON string token: quoted, with a well-formed interior.
pub open spec fn is_string_token(s: Seq<char>) -> bool {
    s.len() >= 2 && s[0] == '"' && s.last() == '"' && is_string_body(s.subrange(1, s.len() - 1))
}

pub open spec fn is_digit_char(c: char) -> bool {
    '0' <= c && c <= '9'
}

/// A JSON number token, the non-negative integer form: digits with no
/// leading zero unless the number is zero itself.
pub open spec fn is_number_token(s: Seq<char>) -> bool {
    s.len() >= 1 && (forall|i: int| 0 <= i < s.len() ==> is_digit_char(#[trigger] s[i])) && (s.len()
        > 1 ==> s[0] != '0')
}

/// A JSON boolean token.
pub open spec fn is_bool_token(s: Seq<char>) -> bool {
    s =~= seq!['t', 'r', 'u', 'e'] || s =~= seq!['f', 'a', 'l', 's', 'e']
}

/// An atomic JSON value: a string, a number or a boolean.
pub open spec fn is_atom(s: Seq<char>) -> bool {
    is_string_token(s) || is_number_token(s) || is_bool_token(s)
}

/// One object member: a string key, a colon, an atomic value.
pub open spec fn is_member(s: Seq<char>) -> bool {
    exists|i: int|
        0 < i < s.len() && is_string_token(s.take(i)) && s[i] == ':' && is_atom(s.skip(i + 1))
}

/// A comma-separated list of members.
pub open spec fn is_members(s: Seq<char>) -> bool
    decreases s.len(),
{
    is_member(s) || (exists|i: int|
        0 < i < s.len() && s[i] == ',' && is_member(s.take(i)) && is_members(#[trigger] s.skip(
            i + 1,
        )))
}

/// A flat JSON object of atomic members.
pub open spec fn is_object(s: Seq<char>) -> bool {
    s.len() >= 2 && s[0] == '{' && s.last() == '}' && (s.len() == 2 || is_members(
        s.subrange(1, s.len() - 1),
    ))
}

/// A comma-separated list of objects.
pub open spec fn is_elements(s: Seq<char>) -> bool
    decreases s.len(),
{
    is_object(s) || (exists|i: int|
        0 < i < s.len() && s[i] == ',' && is_object(s.take(i)) && is_elements(#[trigger] s.skip(
            i + 1,
        )))
}

/// A JSON document whose top level is an array of flat objects.
pub open spec fn is_array_document(s: Seq<char>) -> bool {
    s.len() >= 2 && s[0] == '[' && s.last() == ']' && (s.len() == 2 || is_elements(
        s.subrange(1, s.len() - 1),
    ))
}

/// Two well-formed string interiors concatenate to one.
proof fn lemma_string_body_concat(a: Seq<char>, b: Seq<char>)
    requires
        is_string_body(a),
        is_string_body(b),
    ensures
        is_string_body(a + b),
    decreases a.len(),
{
    if a.len() == 0 {
        assert(a + b =~= b);
    } else if a[0] == '\\' {
        if a.len() >= 2 && (a[1] == '"' || a[1] == '\\' || a[1] == '/' || a[1] == 'b' || a[1]
            == 'f' || a[1] == 'n' || a[1] == 'r' || a[1] == 't') && is_string_body(a.skip(2)) {
            lemma_string_body_concat(a.skip(2), b);
            assert((a + b).skip(2) =~= a.skip(2) + b);
        } else {
            lemma_string_body_concat(a.skip(6), b);
            assert((a + b).skip(6) =~= a.skip(6) + b);
        }
    } else {
        lemma_string_body_concat(a.skip(1), b);
        assert((a + b).skip(1) =~= a.skip(1) + b);
    }
}

proof fn lemma_hex_digit_is_hex(d: nat)
    requires
        d < 16,
    ensures
        is_hex_char(crate::json::hex_digit(d)),
{
}

proof fn lemma_dec_digit_is_digit(d: nat)
    requires
        d < 10,
    ensures
        is_digit_char(dec_digit(d)),
        d >= 1 ==> dec_digit(d) != '0',
{
}

/// The escape of one character is a well-formed string interior.
proof fn lemma_escape_char_body(c: char)
    ensures
        is_string_body(escape_char(c)),
{
    let e = escape_char(c);
    assert(is_string_body(Seq::<char>::empty()));
    if c == '"' || c == '\\' {
        assert(e.skip(2) =~= Seq::<char>::empty());
        assert(e[0] == '\\' && e.len() == 2 && (e[1] == '"' || e[1] == '\\'));
    } else if (c as u32) < 32 {
        lemma_hex_digit_is_hex((c as u32 / 16) as nat);
        lemma_hex_digit_is_hex((c as u32 % 16) as nat);
        assert(is_hex_char('0'));
        assert(e.skip(6) =~= Seq::<char>::empty());
        assert(e[0] == '\\' && e.len() == 6 && e[1] == 'u');
    } else {
        assert(is_plain_char(c));
        assert(e.skip(1) =~= Seq::<char>::empty());
        assert(e[0] == c && e.len() == 1);
    }
}

/// The escape of any text is a well-formed string interior.
proof fn lemma_escape_text_body(t: Seq<char>)
    ensures
        is_string_body(escape_text(t)),
    decreases t.len(),
{
    if t.len() > 0 {
        lemma_escape_text_body(t.drop_last());
        lemma_escape_char_body(t.last());
        lemma_string_body_concat(escape_text(t.drop_last()), escape_char(t.last()));
    }
}

/// The rendered string of any text is a valid JSON string token.
proof fn lemma_json_string_token(t: Seq<char>)
    ensures
        is_string_token(json_string(t)),
{
    lemma_escape_text_body(t);
    let s = json_string(t);
    assert(s.subrange(1, s.len() - 1) =~= escape_text(t));
}

/// The decimal rendering of any number is a valid JSON number token.
proof fn lemma_dec_rep_number(n: nat)
    ensures
        is_number_token(dec_rep(n)),
        n >= 1 ==> dec_rep(n)[0] != '0',
    decreases n,
{
    if n < 10 {
        lemma_dec_digit_is_digit(n);
    } else {
        lemma_dec_rep_number(n / 10);
        lemma_dec_digit_is_digit(n % 10);
        let p = dec_rep(n / 10);
        let s = dec_rep(n);
        assert(s == p.push(dec_digit(n % 10)));
        assert(forall|i: int| 0 <= i < s.len() ==> is_digit_char(#[trigger] s[i])) by {
            assert(forall|i: int| 0 <= i < p.len() ==> s[i] == p[i]);
            assert(s[s.len() - 1] == dec_digit(n % 10));
        }
        assert(s[0] == p[0]);
    }
}

/// An atomic value is never empty.
proof fn lemma_atom_nonempty(val: Seq<char>)
    requires
        is_atom(val),
    ensures
        val.len() >= 1,
{
}

/// A key and an atomic value rendered together form one member.
proof fn lemma_member_of(key: Seq<char>, val: Seq<char>)
    requires
        is_atom(val),
    ensures
        is_member(json_member(key, val)),
{
    lemma_json_string_token(key);
    lemma_atom_nonempty(val);
    let s = json_member(key, val);
    let i = json_string(key).len() as int;
    assert(s.take(i) =~= json_string(key));
    assert(s[i] == ':');
    assert(s.skip(i + 1) =~= val);
}

/// A member is never empty.
proof fn lemma_member_nonempty(m: Seq<char>)
    requires
        is_member(m),
    ensures
        m.len() >= 2,
{
}

/// Prepending a member to a member list keeps it one.
proof fn lemma_members_cons(m: Seq<char>, rest: Seq<char>)
    requires
        is_member(m),
        is_members(rest),
    ensures
        is_members(m + seq![','] + rest),
{
    lemma_member_nonempty(m);
    let s = m + seq![','] + rest;
    let i = m.len() as int;
    assert(s.take(i) =~= m);
    assert(s[i] == ',');
    assert(s.skip(i + 1) =~= rest);
}

/// The members of a record's object, grouped member by member.
spec fn record_members(r: FileMetadataView) -> Seq<char> {
    json_member("name"@, json_string(r.name)) + seq![','] + (json_member(
        "full_path"@,
        json_string(r.full_path),
    ) + seq![','] + (json_member("extension"@, json_string(r.extension)) + seq![','] + (json_member(
        "size"@,
        dec_rep(r.size as nat),
    ) + seq![','] + (json_member("creation_time"@, json_string(r.creation_time)) + seq![','] + (
    json_member("last_access"@, json_string(r.last_access)) + seq![','] + (json_member(
        "last_write"@,
        json_string(r.last_write),
    ) + seq![','] + json_member("is_read_only"@, bool_text(r.is_read_only))))))))
}

/// The record text is its members between braces.
#[verifier::rlimit(100)]
proof fn lemma_record_nested(r: FileMetadataView)
    ensures
        json_of_record(r) == seq!['{'] + record_members(r) + seq!['}'],
{
    let m1 = json_member("name"@, json_string(r.name));
    let m2 = json_member("full_path"@, json_string(r.full_path));
    let m3 = json_member("extension"@, json_string(r.extension));
    let m4 = json_member("size"@, dec_rep(r.size as nat));
    let m5 = json_member("creation_time"@, json_string(r.creation_time));
    let m6 = json_member("last_access"@, json_string(r.last_access));
    let m7 = json_member("last_write"@, json_string(r.last_write));
    let m8 = json_member("is_read_only"@, bool_text(r.is_read_only));
    let flat7 = m7 + seq![','] + m8;
    let flat6 = m6 + seq![','] + m7 + seq![','] + m8;
    let flat5 = m5 + seq![','] + m6 + seq![','] + m7 + seq![','] + m8;
    let flat4 = m4 + seq![','] + m5 + seq![','] + m6 + seq![','] + m7 + seq![','] + m8;
    let flat3 = m3 + seq![','] + m4 + seq![','] + m5 + seq![','] + m6 + seq![','] + m7 + seq![',']
        + m8;
    let flat2 = m2 + seq![','] + m3 + seq![','] + m4 + seq![','] + m5 + seq![','] + m6 + seq![',']
        + m7 + seq![','] + m8;
    let flat1 = m1 + seq![','] + m2 + seq![','] + m3 + seq![','] + m4 + seq![','] + m5 + seq![',']
        + m6 + seq![','] + m7 + seq![','] + m8;
    assert(flat6 =~= m6 + seq![','] + flat7);
    assert(flat5 =~= m5 + seq![','] + flat6);
    assert(flat4 =~= m4 + seq![','] + flat5);
    assert(flat3 =~= m3 + seq![','] + flat4);
    assert(flat2 =~= m2 + seq![','] + flat3);
    assert(flat1 =~= m1 + seq![','] + flat2);
    assert(json_of_record(r) =~= seq!['{'] + flat1 + seq!['}']);
    assert(record_members(r) == flat1);
}

/// The rendered object of any record is a valid flat JSON object.
proof fn lemma_record_object(r: FileMetadataView)
    ensures
        is_object(json_of_record(r)),
{
    reveal_strlit("true");
    reveal_strlit("false");
    lemma_json_string_token(r.name);
    lemma_json_string_token(r.full_path);
    lemma_json_string_token(r.extension);
    lemma_dec_rep_number(r.size as nat);
    lemma_json_string_token(r.creation_time);
    lemma_json_string_token(r.last_access);
    lemma_json_string_token(r.last_write);
    assert(is_bool_token(bool_text(r.is_read_only))) by {
        if r.is_read_only {
            assert("true"@ =~= seq!['t', 'r', 'u', 'e']);
        } else {
            assert("false"@ =~= seq!['f', 'a', 'l', 's', 'e']);
        }
    }
    let m1 = json_member("name"@, json_string(r.name));
    let m2 = json_member("full_path"@, json_string(r.full_path));
    let m3 = json_member("extension"@, json_string(r.extension));
    let m4 = json_member("size"@, dec_rep(r.size as nat));
    let m5 = json_member("creation_time"@, json_string(r.creation_time));
    let m6 = json_member("last_access"@, json_string(r.last_access));
    let m7 = json_member("last_write"@, json_string(r.last_write));
    let m8 = json_member("is_read_only"@, bool_text(r.is_read_only));
    lemma_member_of("name"@, json_string(r.name));
    lemma_member_of("full_path"@, json_string(r.full_path));
    lemma_member_of("extension"@, json_string(r.extension));
    lemma_member_of("size"@, dec_rep(r.size as nat));
    lemma_member_of("creation_time"@, json_string(r.creation_time));
    lemma_member_of("last_access"@, json_string(r.last_access));
    lemma_member_of("last_write"@, json_string(r.last_write));
    lemma_member_of("is_read_only"@, bool_text(r.is_read_only));
    let c7 = m7 + seq![','] + m8;
    let c6 = m6 + seq![','] + c7;
    let c5 = m5 + seq![','] + c6;
    let c4 = m4 + seq![','] + c5;
    let c3 = m3 + seq![','] + c4;
    let c2 = m2 + seq![','] + c3;
    let c1 = m1 + seq![','] + c2;
    lemma_members_cons(m7, m8);
    lemma_members_cons(m6, c7);
    lemma_members_cons(m5, c6);
    lemma_members_cons(m4, c5);
    lemma_members_cons(m3, c4);
    lemma_members_cons(m2, c3);
    lemma_members_cons(m1, c2);
    assert(record_members(r) == c1);
    lemma_record_nested(r);
    let s = json_of_record(r);
    lemma_member_nonempty(m1);
    assert(s.subrange(1, s.len() - 1) =~= c1);
    assert(s[0] == '{');
    assert(s.last() == '}');
}

/// Appending an object to an object list keeps it one.
proof fn lemma_elements_snoc(a: Seq<char>, b: Seq<char>)
    requires
        is_elements(a),
        is_object(b),
    ensures
        is_elements(a + seq![','] + b),
    decreases a.len(),
{
    let s = a + seq![','] + b;
    assert(is_elements(b));
    if is_object(a) {
        let i = a.len() as int;
        assert(s.take(i) =~= a);
        assert(s[i] == ',');
        assert(s.skip(i + 1) =~= b);
    } else {
        let i = choose|i: int|
            0 < i < a.len() && a[i] == ',' && is_object(a.take(i)) && is_elements(
                #[trigger] a.skip(i + 1),
            );
        lemma_elements_snoc(a.skip(i + 1), b);
        assert(s.take(i) =~= a.take(i));
        assert(s[i] == ',');
        assert(s.skip(i + 1) =~= a.skip(i + 1) + seq![','] + b);
    }
}

/// The body of a non-empty record list is a valid object list.
proof fn lemma_records_body_elements(rs: Seq<FileMetadataView>)
    requires
        rs.len() >= 1,
    ensures
        is_elements(records_body(rs)),
    decreases rs.len(),
{
    if rs.len() == 1 {
        lemma_record_object(rs[0]);
    } else {
        lemma_records_body_elements(rs.drop_last());
        lemma_record_object(rs.last());
        lemma_elements_snoc(records_body(rs.drop_last()), json_of_record(rs.last()));
    }
}

/// Law: the document of any record list is a syntactically valid JSON
/// text whose top level is an array — of flat objects whose members are
/// strings, numbers and booleans — the empty list giving `[]`.
pub proof fn lemma_document_is_valid_json(rs: Seq<FileMetadataView>)
    ensures
        is_array_document(json_document(rs)),
{
    let s = json_document(rs);
    assert(s[0] == '[');
    assert(s.last() == ']');
    if rs.len() == 0 {
        assert(s.len() == 2);
    } else {
        lemma_records_body_elements(rs);
        assert(s.subrange(1, s.len() - 1) =~= records_body(rs));
    }
}

/// Law: every run that reaches `finalize` has emitted a text that parses
/// as JSON with an array at the top level, the empty-array case included.
pub proof fn lemma_finalized_output_is_json(w: &crate::writer::JsonArrayWriter)
    requires
        w.wf(),
        w.finished(),
    ensures
        is_array_document(w.emitted()),
{
    crate::writer::lemma_finalized_document(*w);
    lemma_document_is_valid_json(w.records());
}

} // verus!
