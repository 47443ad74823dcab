//! JSON text fragments: string escaping and quoted string rendering.
//! The escaping rule is fixed: `"` and `\` get a backslash, control
//! characters become `\u00XY`, everything else passes through.

use vstd::prelude::*;
use vstd::string::*;
use crate::text::dec_digit;

verus! {

/// The hexadecimal digit character for `d`, for `d < 16`, lower case.
pub open spec fn hex_digit(d: nat) -> char {
    if d < 10 {
        dec_digit(d)
    } else if d == 10 {
        'a'
    } else if d == 11 {
        'b'
    } else if d == 12 {
        'c'
    } else if d == 13 {
        'd'
    } else if d == 14 {
        'e'
    } else {
        'f'
    }
}

/// How one character is written inside a JSON string.
pub open spec fn escape_char(c: char) -> Seq<char> {
    if c == '"' {
        seq!['\\', '"']
    } else if c == '\\' {
        seq!['\\', '\\']
    } else if (c as u32) < 32 {
        seq!['\\', 'u', '0', '0', hex_digit((c as u32 / 16) as nat), hex_digit((c as u32 % 16) as nat)]
    } else {
        seq![c]
    }
}

/// The text `s` with every character escaped for a JSON string.
pub open spec fn escape_text(s: Seq<char>) -> Seq<char>
    decreases s.len(),
{
    if s.len() == 0 {
        Seq::<char>::empty()
    } else {
        escape_text(s.drop_last()) + escape_char(s.last())
    }
}

/// The JSON string literal for the text `s`: quotes around the escape.
pub open spec fn json_string(s: Seq<char>) -> Seq<char> {
    seq!['"'] + escape_text(s) + seq!['"']
}

/// One JSON object member: a string key, a colon, a value text.
pub open spec fn json_member(key: Seq<char>, val: Seq<char>) -> Seq<char> {
    json_string(key) + seq![':'] + val
}

/// The JSON boolean literal text.
pub open spec fn bool_text(b: bool) -> Seq<char> {
    if b {
        "true"@
    } else {
        "false"@
    }
}

fn hex_digit_str(d: u32) -> (r: &'static str)
    requires
        d < 16,
    ensures
        r@ == seq![hex_digit(d as nat)],
{
    if d == 0 {
        proof { reveal_strlit("0"); assert("0"@ =~= seq![hex_digit(0)]); }
        "0"
    } else if d == 1 {
        proof { reveal_strlit("1"); assert("1"@ =~= seq![hex_digit(1)]); }
        "1"
    } else if d == 2 {
        proof { reveal_strlit("2"); assert("2"@ =~= seq![hex_digit(2)]); }
        "2"
    } else if d == 3 {
        proof { reveal_strlit("3"); assert("3"@ =~= seq![hex_digit(3)]); }
        "3"
    } else if d == 4 {
        proof { reveal_strlit("4"); assert("4"@ =~= seq![hex_digit(4)]); }
        "4"
    } else if d == 5 {
        proof { reveal_strlit("5"); assert("5"@ =~= seq![hex_digit(5)]); }
        "5"
    } else if d == 6 {
        proof { reveal_strlit("6"); assert("6"@ =~= seq![hex_digit(6)]); }
        "6"
    } else if d == 7 {
        proof { reveal_strlit("7"); assert("7"@ =~= seq![hex_digit(7)]); }
        "7"
    } else if d == 8 {
        proof { reveal_strlit("8"); assert("8"@ =~= seq![hex_digit(8)]); }
        "8"
    } else if d == 9 {
        proof { reveal_strlit("9"); assert("9"@ =~= seq![hex_digit(9)]); }
        "9"
    } else if d == 10 {
        proof { reveal_strlit("a"); assert("a"@ =~= seq![hex_digit(10)]); }
        "a"
    } else if d == 11 {
        proof { reveal_strlit("b"); assert("b"@ =~= seq![hex_digit(11)]); }
        "b"
    } else if d == 12 {
        proof { reveal_strlit("c"); assert("c"@ =~= seq![hex_digit(12)]); }
        "c"
    } else if d == 13 {
        proof { reveal_strlit("d"); assert("d"@ =~= seq![hex_digit(13)]); }
        "d"
    } else if d == 14 {
        proof { reveal_strlit("e"); assert("e"@ =~= seq![hex_digit(14)]); }
        "e"
    } else {
        proof { reveal_strlit("f"); assert("f"@ =~= seq![hex_digit(15)]); }
        "f"
    }
}

/// Appends to `out` the escape of the character of `s` at `i`.
fn append_escaped_char(out: &mut String, s: &str, i: usize)
    requires
        i < usize::MAX,
        i < s@.len(),
    ensures
        final(out)@ == old(out)@ + escape_char(s@[i as int]),
{
    let c = s.get_char(i);
    if c == '"' {
        proof { reveal_strlit("\\\""); assert("\\\""@ =~= escape_char(c)); }
        out.append("\\\"");
    } else if c == '\\' {
        proof { reveal_strlit("\\\\"); assert("\\\\"@ =~= escape_char(c)); }
        out.append("\\\\");
    } else if (c as u32) < 32 {
        proof { reveal_strlit("\\u00"); }
        out.append("\\u00");
        let hi = (c as u32) / 16;
        let lo = (c as u32) % 16;
        out.append(hex_digit_str(hi));
        out.append(hex_digit_str(lo));
        proof {
            assert(final(out)@ =~= old(out)@ + escape_char(c));
        }
    } else {
        let piece = s.substring_char(i, i + 1);
        out.append(piece);
        proof {
            assert(piece@ =~= seq![c]);
            assert(final(out)@ =~= old(out)@ + escape_char(c));
        }
    }
}

/// Appends the JSON string literal for `s` to `out`.
pub fn append_json_string(out: &mut String, s: &str)
    ensures
        final(out)@ == old(out)@ + json_string(s@),
{
    proof { reveal_strlit("\""); }
    out.append("\"");
    let n: usize = s.unicode_len();
    let mut i: usize = 0;
    proof {
        assert(s@.take(0) =~= Seq::<char>::empty());
        assert(out@ =~= old(out)@ + seq!['"'] + escape_text(s@.take(0)));
    }
    while i < n
        invariant
            i <= n,
            n as nat == s@.len(),
            out@ == old(out)@ + seq!['"'] + escape_text(s@.take(i as int)),
        decreases n - i,
    {
        append_escaped_char(out, s, i);
        proof {
            assert(s@.take(i as int + 1).drop_last() =~= s@.take(i as int));
            assert(s@.take(i as int + 1).last() == s@[i as int]);
            assert(out@ =~= old(out)@ + seq!['"'] + escape_text(s@.take(i as int + 1)));
        }
        i = i + 1;
    }
    proof { reveal_strlit("\""); }
    out.append("\"");
    proof {
        assert(s@.take(n as int) =~= s@);
        assert(out@ =~= old(out)@ + json_string(s@));
    }
}

} // verus!
