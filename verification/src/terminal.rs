//! Decisions about the terminal: whether it announces graphics support,
//! how a yes/no answer reads, where kitty may be installed, and how to
//! relaunch inside kitty.

use vstd::prelude::*;
use vstd::utf8::*;

use crate::bytes::{bytes_equal, contains_bytes, contains_seq};
use crate::kitty::lit;

verus! {

broadcast use vstd::utf8::encode_utf8_decode_utf8;

/// The Unicode lowercase form of a text, as `str::to_lowercase` computes it.
pub uninterp spec fn unicode_lowercase(s: Seq<char>) -> Seq<char>;

/// Calls `str::to_lowercase`. Claimed: the result is `unicode_lowercase` of
/// the text, so one text always gives one result, and an empty text stays
/// empty (each char maps to its own lowercase chars).
#[verifier::external_body]
fn to_lowercase(s: &str) -> (r: String)
    ensures
        r@ == unicode_lowercase(s@),
        s@.len() == 0 ==> r@.len() == 0,
{
    s.to_lowercase()
}

/// A char of the Unicode property `White_Space`.
pub open spec fn is_white_space(c: char) -> bool {
    let v = c as u32;
    ||| 0x09 <= v <= 0x0d
    ||| v == 0x20
    ||| v == 0x85
    ||| v == 0xa0
    ||| v == 0x1680
    ||| 0x2000 <= v <= 0x200a
    ||| v == 0x2028
    ||| v == 0x2029
    ||| v == 0x202f
    ||| v == 0x205f
    ||| v == 0x3000
}

/// `s` without its leading white space.
pub open spec fn trim_start(s: Seq<char>) -> Seq<char>
    decreases s.len(),
{
    if s.len() > 0 && is_white_space(s[0]) {
        trim_start(s.drop_first())
    } else {
        s
    }
}

/// `s` without its trailing white space.
pub open spec fn trim_end(s: Seq<char>) -> Seq<char>
    decreases s.len(),
{
    if s.len() > 0 && is_white_space(s.last()) {
        trim_end(s.drop_last())
    } else {
        s
    }
}

/// `s` without leading and trailing white space.
pub open spec fn trimmed(s: Seq<char>) -> Seq<char> {
    trim_end(trim_start(s))
}

/// Calls `str::trim`. Claimed, as its documentation says: the result is the
/// text with leading and trailing chars of the Unicode property
/// `White_Space` removed.
#[verifier::external_body]
fn trim(s: &str) -> (r: &str)
    ensures
        r@ == trimmed(s@),
{
    s.trim()
}

/// Whether the terminal's environment announces graphics support: `TERM`
/// holds `kitty`, or `TERM_PROGRAM`, lowercased, holds `kitty` or `wezterm`.
/// `None` stands for a variable that is unset or not valid Unicode.
pub fn term_indicates_kitty(term: Option<&str>, term_program: Option<&str>) -> (r: bool)
    ensures
        r == ((term matches Some(t) && contains_seq(lit(t), lit("kitty"))) || (term_program matches Some(
            p,
        ) && (contains_seq(encode_utf8(unicode_lowercase(p@)), lit("kitty")) || contains_seq(
            encode_utf8(unicode_lowercase(p@)),
            lit("wezterm"),
        )))),
{
    if let Some(t) = term {
        if contains_bytes(t.as_bytes(), "kitty".as_bytes()) {
            return true;
        }
    }
    if let Some(p) = term_program {
        let lower = to_lowercase(p);
        let lb = lower.as_str().as_bytes();
        if contains_bytes(lb, "kitty".as_bytes()) || contains_bytes(lb, "wezterm".as_bytes()) {
            return true;
        }
    }
    false
}

/// The answer to a yes/no prompt, trimmed and lowercased.
pub open spec fn normalized_answer(input: Seq<char>) -> Seq<char> {
    unicode_lowercase(trimmed(input))
}

/// Whether a line typed at a `[Y/n]` prompt accepts: once trimmed and
/// lowercased it is empty, `y` or `yes`.
pub fn answer_is_yes(input: &str) -> (r: bool)
    ensures
        r == (normalized_answer(input@).len() == 0 || normalized_answer(input@) == "y"@
            || normalized_answer(input@) == "yes"@),
        trimmed(input@).len() == 0 ==> r,
{
    let t = trim(input);
    let lower = to_lowercase(t);
    let b = lower.as_str().as_bytes();
    proof {
        let a = normalized_answer(input@);
        assert(decode_utf8(encode_utf8(a)) == a);
        assert(decode_utf8(encode_utf8("y"@)) == "y"@);
        assert(decode_utf8(encode_utf8("yes"@)) == "yes"@);
        assert(decode_utf8(encode_utf8(Seq::<char>::empty())) == Seq::<char>::empty());
        assert(encode_utf8(Seq::<char>::empty()) == Seq::<u8>::empty());
        if a.len() > 0 {
            assert(encode_utf8(a).len() > 0);
        }
    }
    b.len() == 0 || bytes_equal(b, "y".as_bytes()) || bytes_equal(b, "yes".as_bytes())
}

/// Where kitty is looked for before the search path, in order.
pub fn kitty_candidates() -> (c: Vec<&'static str>)
    ensures
        c@.len() == 4,
        c@[0]@ == "/opt/homebrew/bin/kitty"@,
        c@[1]@ == "/usr/local/bin/kitty"@,
        c@[2]@ == "/usr/bin/kitty"@,
        c@[3]@ == "/Applications/kitty.app/Contents/MacOS/kitty"@,
{
    let mut c: Vec<&'static str> = Vec::new();
    c.push("/opt/homebrew/bin/kitty");
    c.push("/usr/local/bin/kitty");
    c.push("/usr/bin/kitty");
    c.push("/Applications/kitty.app/Contents/MacOS/kitty");
    c
}

/// The first candidate found on disk: the least index whose entry in
/// `found` is true, or none where no entry is.
pub fn first_existing(found: &[bool]) -> (r: Option<usize>)
    ensures
        r matches Some(i) ==> i < found@.len() && found@[i as int] && forall|j: int|
            0 <= j < i ==> !found@[j],
        r is None ==> forall|j: int| 0 <= j < found@.len() ==> !found@[j],
{
    let mut i: usize = 0;
    while i < found.len()
        invariant
            i <= found@.len(),
            forall|j: int| 0 <= j < i ==> !found@[j],
        decreases found@.len() - i,
    {
        if found[i] {
            return Some(i);
        }
        i = i + 1;
    }
    None
}

/// Arguments that relaunch the program inside kitty: `--hold`, the
/// program's own path `exe`, then the arguments it was given (`args` minus
/// the program name in `args[0]`).
pub fn kitty_launch_args(exe: &str, args: &Vec<String>) -> (r: Vec<String>)
    requires
        args@.len() >= 1,
    ensures
        r@.len() == args@.len() + 1,
        r@[0]@ == "--hold"@,
        r@[1]@ == exe@,
        forall|i: int| 2 <= i < r@.len() ==> #[trigger] r@[i]@ == args@[i - 1]@,
{
    let mut r: Vec<String> = Vec::new();
    r.push(String::from_str("--hold"));
    r.push(exe.to_owned());
    let mut i: usize = 1;
    while i < args.len()
        invariant
            1 <= i <= args@.len(),
            r@.len() == i + 1,
            r@[0]@ == "--hold"@,
            r@[1]@ == exe@,
            forall|k: int| 2 <= k < r@.len() ==> #[trigger] r@[k]@ == args@[k - 1]@,
        decreases args@.len() - i,
    {
        r.push(args[i].clone());
        i = i + 1;
    }
    r
}


/// The text that `String::from_utf8_lossy` makes of `bytes`: their UTF-8
/// decoding, with each invalid sequence replaced by U+FFFD.
pub uninterp spec fn utf8_lossy(bytes: Seq<u8>) -> Seq<char>;

/// Calls `String::from_utf8_lossy` and takes ownership of the text.
/// Claimed: the text is `utf8_lossy` of the bytes, and, as the documentation
/// says, valid UTF-8 is decoded unchanged.
#[verifier::external_body]
fn from_utf8_lossy(bytes: &[u8]) -> (s: String)
    ensures
        s@ == utf8_lossy(bytes@),
        valid_utf8(bytes@) ==> s@ == decode_utf8(bytes@),
{
    String::from_utf8_lossy(bytes).into_owned()
}

/// The path that a successful `which kitty` printed: its output as text,
/// trimmed; nothing where the command failed.
pub fn which_output_path(success: bool, stdout: &[u8]) -> (r: Option<String>)
    ensures
        success ==> (r matches Some(p) && p@ == trimmed(utf8_lossy(stdout@))),
        !success ==> r is None,
{
    if success {
        let text = from_utf8_lossy(stdout);
        Some(trim(text.as_str()).to_owned())
    } else {
        None
    }
}

} // verus!
