//! Joining file-system paths held as text, with the rules that
//! `std::path::PathBuf::push` follows on Unix.

use vstd::prelude::*;
use vstd::utf8::*;
use vstd::string::*;

verus! {

/// `base` joined with `name`: an absolute `name` (one that starts with `/`)
/// replaces `base`; otherwise `name` is appended to `base`, after a `/`
/// unless `base` is empty or already ends with one.
pub open spec fn joined(base: Seq<char>, name: Seq<char>) -> Seq<char> {
    if name.len() > 0 && name[0] == '/' {
        name
    } else if base.len() == 0 || base.last() == '/' {
        base + name
    } else {
        base + seq!['/'] + name
    }
}

/// The UTF-8 encoding of a text grows by the encoding of each added char.
pub proof fn lemma_encode_utf8_push(s: Seq<char>, c: char)
    ensures
        encode_utf8(s.push(c)) == encode_utf8(s) + encode_scalar(c as u32),
    decreases s.len(),
{
    if s.len() == 0 {
        assert(s.push(c).drop_first() == Seq::<char>::empty());
        assert(encode_utf8(s.push(c)) == encode_scalar(c as u32) + encode_utf8(Seq::<char>::empty()));
    } else {
        assert(s.push(c).drop_first() == s.drop_first().push(c));
        lemma_encode_utf8_push(s.drop_first(), c);
        assert(s.push(c)[0] == s[0]);
    }
}

/// A char's UTF-8 encoding starts, and ends, with the byte `/` exactly when
/// the char is `/`.
pub proof fn lemma_scalar_slash(c: char)
    ensures
        encode_scalar(c as u32).len() > 0,
        (encode_scalar(c as u32)[0] == 0x2fu8) <==> (c == '/'),
        (encode_scalar(c as u32).last() == 0x2fu8) <==> (c == '/'),
{
    let v: u32 = c as u32;
    if c == '/' {
        assert(v == 0x2f);
    }
    if v == 0x2f {
        assert(((v & 0x7F) as u8) == 0x2fu8) by (bit_vector)
            requires v == 0x2f;
        assert(c == (v as char));
    }
    if has_width_1_encoding(v) {
        assert(((v & 0x7F) as u8) == 0x2fu8 ==> v == 0x2f) by (bit_vector)
            requires v <= 0x7f;
    } else if has_width_2_encoding(v) {
        assert((0xC0u8 | ((v >> 6) & 0x1F) as u8) >= 0xC0u8) by (bit_vector);
        assert((0x80u8 | (v & 0x3F) as u8) >= 0x80u8) by (bit_vector);
    } else if has_width_3_encoding(v) {
        assert((0xE0u8 | ((v >> 12) & 0x0F) as u8) >= 0xE0u8) by (bit_vector);
        assert((0x80u8 | (v & 0x3F) as u8) >= 0x80u8) by (bit_vector);
    } else {
        assert((0xF0u8 | ((v >> 18) & 0x7) as u8) >= 0xF0u8) by (bit_vector);
        assert((0x80u8 | (v & 0x3F) as u8) >= 0x80u8) by (bit_vector);
    }
}

/// The encoding of a text is empty exactly when the text is; its first byte
/// is `/` exactly when its first char is, and likewise for its last byte.
pub proof fn lemma_encode_utf8_slash_ends(s: Seq<char>)
    ensures
        (encode_utf8(s).len() == 0) <==> (s.len() == 0),
        s.len() > 0 ==> ((encode_utf8(s)[0] == 0x2fu8) <==> (s[0] == '/')),
        s.len() > 0 ==> ((encode_utf8(s).last() == 0x2fu8) <==> (s.last() == '/')),
{
    if s.len() > 0 {
        lemma_scalar_slash(s[0]);
        lemma_scalar_slash(s.last());
        lemma_encode_utf8_push(s.drop_last(), s.last());
        assert(s.drop_last().push(s.last()) == s);
    }
}

/// Joining a relative name keeps the base as a prefix and the name as the
/// end of the result: what is joined under a directory stays under it.
pub proof fn lemma_joined_relative(base: Seq<char>, name: Seq<char>)
    requires
        name.len() == 0 || name[0] != '/',
    ensures
        joined(base, name).len() >= base.len() + name.len(),
        joined(base, name).subrange(0, base.len() as int) == base,
        joined(base, name).subrange(
            joined(base, name).len() - name.len(),
            joined(base, name).len() as int,
        ) == name,
{
    let j = joined(base, name);
    if base.len() == 0 || base.last() == '/' {
        assert(j == base + name);
        assert(j.subrange(0, base.len() as int) == base);
        assert(j.subrange(j.len() - name.len(), j.len() as int) == name);
    } else {
        assert(j == base + seq!['/'] + name);
        assert(j.subrange(0, base.len() as int) == base);
        assert(j.subrange(j.len() - name.len(), j.len() as int) == name);
    }
}

/// Joins `name` onto the path `base`, as `Path::join` does on Unix.
pub fn join_path(base: &str, name: &str) -> (r: String)
    ensures
        r@ == joined(base@, name@),
{
    proof {
        lemma_encode_utf8_slash_ends(base@);
        lemma_encode_utf8_slash_ends(name@);
        reveal_strlit("/");
        assert("/"@ == seq!['/']);
    }
    let nb = name.as_bytes();
    if nb.len() > 0 && nb[0] == 0x2f {
        return name.to_owned();
    }
    let bb = base.as_bytes();
    let mut r = base.to_owned();
    if bb.len() > 0 && bb[bb.len() - 1] != 0x2f {
        r.append("/");
    }
    r.append(name);
    r
}

} // verus!
