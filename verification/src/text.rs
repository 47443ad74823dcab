//! Plain text functions on paths and numbers: decimal rendering, the file
//! name, extension and parent of a slash- or backslash-separated path, and
//! the subtree-containment test between two such paths.

use vstd::prelude::*;
use vstd::string::*;

verus! {

/// The decimal digit character for `d`, for `d < 10`.
pub open spec fn dec_digit(d: nat) -> char {
    if d == 0 {
        '0'
    } else if d == 1 {
        '1'
    } else if d == 2 {
        '2'
    } else if d == 3 {
        '3'
    } else if d == 4 {
        '4'
    } else if d == 5 {
        '5'
    } else if d == 6 {
        '6'
    } else if d == 7 {
        '7'
    } else if d == 8 {
        '8'
    } else {
        '9'
    }
}

/// The decimal representation of `n`, most significant digit first,
/// with no leading zeros (a single `'0'` for zero).
pub open spec fn dec_rep(n: nat) -> Seq<char>
    decreases n,
{
    if n < 10 {
        seq![dec_digit(n)]
    } else {
        dec_rep(n / 10).push(dec_digit(n % 10))
    }
}

fn digit_str(d: u128) -> (r: &'static str)
    requires
        d < 10,
    ensures
        r@ == seq![dec_digit(d as nat)],
{
    if d == 0 {
        proof { reveal_strlit("0"); }
        let r = "0";
        proof { assert(r@ =~= seq![dec_digit(d as nat)]); }
        r
    } else if d == 1 {
        proof { reveal_strlit("1"); }
        let r = "1";
        proof { assert(r@ =~= seq![dec_digit(d as nat)]); }
        r
    } else if d == 2 {
        proof { reveal_strlit("2"); }
        let r = "2";
        proof { assert(r@ =~= seq![dec_digit(d as nat)]); }
        r
    } else if d == 3 {
        proof { reveal_strlit("3"); }
        let r = "3";
        proof { assert(r@ =~= seq![dec_digit(d as nat)]); }
        r
    } else if d == 4 {
        proof { reveal_strlit("4"); }
        let r = "4";
        proof { assert(r@ =~= seq![dec_digit(d as nat)]); }
        r
    } else if d == 5 {
        proof { reveal_strlit("5"); }
        let r = "5";
        proof { assert(r@ =~= seq![dec_digit(d as nat)]); }
        r
    } else if d == 6 {
        proof { reveal_strlit("6"); }
        let r = "6";
        proof { assert(r@ =~= seq![dec_digit(d as nat)]); }
        r
    } else if d == 7 {
        proof { reveal_strlit("7"); }
        let r = "7";
        proof { assert(r@ =~= seq![dec_digit(d as nat)]); }
        r
    } else if d == 8 {
        proof { reveal_strlit("8"); }
        let r = "8";
        proof { assert(r@ =~= seq![dec_digit(d as nat)]); }
        r
    } else {
        proof { reveal_strlit("9"); }
        let r = "9";
        proof { assert(r@ =~= seq![dec_digit(d as nat)]); }
        r
    }
}

/// Renders `n` in decimal.
pub fn u128_to_string(n: u128) -> (s: String)
    ensures
        s@ == dec_rep(n as nat),
    decreases n,
{
    if n < 10 {
        String::from_str(digit_str(n))
    } else {
        let rest = u128_to_string(n / 10);
        let s = rest.concat(digit_str(n % 10));
        proof {
            assert(s@ =~= dec_rep((n / 10) as nat).push(dec_digit((n % 10) as nat)));
        }
        s
    }
}

/// A path separator: the library treats both slash styles alike.
pub open spec fn is_sep(c: char) -> bool {
    c == '/' || c == '\\'
}

/// The index at which the final path component of `s` starts: just past
/// the last separator, or 0 when `s` holds no separator.
pub open spec fn name_start(s: Seq<char>) -> int
    decreases s.len(),
{
    if s.len() == 0 {
        0
    } else if is_sep(s.last()) {
        s.len() as int
    } else {
        name_start(s.drop_last())
    }
}

pub proof fn lemma_name_start_bounds(s: Seq<char>)
    ensures
        0 <= name_start(s) <= s.len(),
    decreases s.len(),
{
    if s.len() > 0 && !is_sep(s.last()) {
        lemma_name_start_bounds(s.drop_last());
    }
}

/// The final component of the path `s`.
pub open spec fn file_name_of(s: Seq<char>) -> Seq<char> {
    s.skip(name_start(s))
}

/// The index just past the last `'.'` of `s`, or 0 when `s` holds no dot.
pub open spec fn last_dot(s: Seq<char>) -> int
    decreases s.len(),
{
    if s.len() == 0 {
        0
    } else if s.last() == '.' {
        s.len() as int
    } else {
        last_dot(s.drop_last())
    }
}

pub proof fn lemma_last_dot_bounds(s: Seq<char>)
    ensures
        0 <= last_dot(s) <= s.len(),
    decreases s.len(),
{
    if s.len() > 0 && s.last() != '.' {
        lemma_last_dot_bounds(s.drop_last());
    }
}

/// The extension of the file name `name`: the text after its last dot.
/// A name without a dot, or whose only dot opens it (a hidden file),
/// has no extension; a name ending in a dot has the empty extension.
pub open spec fn extension_of_name(name: Seq<char>) -> Option<Seq<char>> {
    let d = last_dot(name);
    if d <= 1 {
        None
    } else {
        Some(name.skip(d))
    }
}

/// The extension of the final component of the path `s`.
pub open spec fn extension_of_path(s: Seq<char>) -> Option<Seq<char>> {
    extension_of_name(file_name_of(s))
}

/// The parent of the path `s`: the text before the separator that opens
/// its final component, kept as a single separator for a top-level entry;
/// a path without a separator has no parent.
pub open spec fn parent_of(s: Seq<char>) -> Option<Seq<char>> {
    let ns = name_start(s);
    if ns == 0 {
        None
    } else if ns == 1 {
        Some(s.take(1))
    } else {
        Some(s.take(ns - 1))
    }
}

/// Whether the path `p` lies inside the subtree rooted at `b`: it is `b`
/// itself, or continues `b` at a component boundary.
pub open spec fn is_within(p: Seq<char>, b: Seq<char>) -> bool {
    p == b || (b.len() < p.len() && p.take(b.len() as int) == b && is_sep(p[b.len() as int]))
}

fn is_sep_exec(c: char) -> (r: bool)
    ensures
        r == is_sep(c),
{
    c == '/' || c == '\\'
}

/// Finds where the final component of `path` starts.
fn find_name_start(path: &str) -> (r: usize)
    ensures
        r as int == name_start(path@),
{
    let n: usize = path.unicode_len();
    let mut j: usize = n;
    proof {
        assert(path@.take(n as int) =~= path@);
    }
    while j > 0
        invariant
            j <= n,
            n as nat == path@.len(),
            name_start(path@) == name_start(path@.take(j as int)),
            forall|k: int| j <= k < n ==> !is_sep(path@[k]),
        decreases j,
    {
        let c = path.get_char(j - 1);
        if is_sep_exec(c) {
            proof {
                assert(path@.take(j as int).last() == c);
            }
            return j;
        }
        proof {
            assert(path@.take(j as int).last() == c);
            assert(path@.take(j as int).drop_last() =~= path@.take(j as int - 1));
        }
        j = j - 1;
    }
    proof {
        assert(path@.take(0) =~= Seq::<char>::empty());
    }
    0
}

/// The final component of `path`.
pub fn file_name(path: &str) -> (r: String)
    ensures
        r@ == file_name_of(path@),
{
    let n: usize = path.unicode_len();
    let start = find_name_start(path);
    proof {
        lemma_name_start_bounds(path@);
    }
    let part = path.substring_char(start, n);
    proof {
        assert(part@ =~= file_name_of(path@));
    }
    String::from_str(part)
}

/// Finds the index just past the last dot of `name`.
fn find_last_dot(name: &str) -> (r: usize)
    ensures
        r as int == last_dot(name@),
{
    let n: usize = name.unicode_len();
    let mut j: usize = n;
    proof {
        assert(name@.take(n as int) =~= name@);
    }
    while j > 0
        invariant
            j <= n,
            n as nat == name@.len(),
            last_dot(name@) == last_dot(name@.take(j as int)),
        decreases j,
    {
        let c = name.get_char(j - 1);
        if c == '.' {
            proof {
                assert(name@.take(j as int).last() == c);
            }
            return j;
        }
        proof {
            assert(name@.take(j as int).last() == c);
            assert(name@.take(j as int).drop_last() =~= name@.take(j as int - 1));
        }
        j = j - 1;
    }
    proof {
        assert(name@.take(0) =~= Seq::<char>::empty());
    }
    0
}

/// The extension of the file name `name`, when it has one.
pub fn extension_of(name: &str) -> (r: Option<String>)
    ensures
        match r {
            Some(e) => extension_of_name(name@) == Some(e@),
            None => extension_of_name(name@) is None,
        },
{
    let n: usize = name.unicode_len();
    let d = find_last_dot(name);
    proof {
        lemma_last_dot_bounds(name@);
    }
    if d <= 1 {
        None
    } else {
        let part = name.substring_char(d, n);
        Some(String::from_str(part))
    }
}

/// The parent of `path`, when it has one.
pub fn parent(path: &str) -> (r: Option<String>)
    ensures
        match r {
            Some(p) => parent_of(path@) == Some(p@),
            None => parent_of(path@) is None,
        },
{
    let start = find_name_start(path);
    proof {
        lemma_name_start_bounds(path@);
    }
    if start == 0 {
        None
    } else if start == 1 {
        Some(String::from_str(path.substring_char(0, 1)))
    } else {
        Some(String::from_str(path.substring_char(0, start - 1)))
    }
}

/// Whether `path` lies inside the subtree rooted at `base`.
pub fn path_is_within(path: &str, base: &str) -> (r: bool)
    ensures
        r == is_within(path@, base@),
{
    let pl: usize = path.unicode_len();
    let bl: usize = base.unicode_len();
    if pl < bl {
        proof {
            assert(path@ != base@) by {
                assert(path@.len() != base@.len());
            }
        }
        return false;
    }
    let mut i: usize = 0;
    while i < bl
        invariant
            i <= bl,
            bl <= pl,
            pl as nat == path@.len(),
            bl as nat == base@.len(),
            forall|k: int| 0 <= k < i ==> path@[k] == base@[k],
        decreases bl - i,
    {
        if path.get_char(i) != base.get_char(i) {
            proof {
                assert(path@.take(bl as int)[i as int] != base@[i as int]);
                assert(path@.take(bl as int) != base@);
                if path@.len() == base@.len() {
                    assert(path@[i as int] != base@[i as int]);
                }
            }
            return false;
        }
        i = i + 1;
    }
    if pl == bl {
        proof {
            assert(path@ =~= base@);
        }
        true
    } else {
        proof {
            assert(path@.take(bl as int) =~= base@);
        }
        is_sep_exec(path.get_char(bl))
    }
}

} // verus!
