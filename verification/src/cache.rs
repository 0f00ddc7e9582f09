//! Layout of the frame cache: where it lives, the key of an animation's
//! entry, and the names of the files in an entry.

use vstd::prelude::*;
use sha2::Digest;

use crate::numfmt::{decimal, hex_alphabet, hex_lower, zero_pad, push_decimal, push_hex_lower,
    push_padded_decimal, lemma_decimal_digits, lemma_hex_lower_shape, lemma_padded_decimal_injective,
    lemma_decimal_value};
use crate::paths::{joined, join_path, lemma_joined_relative};

verus! {

/// The SHA-256 digest of `data`.
pub uninterp spec fn sha256(data: Seq<u8>) -> Seq<u8>;

/// Calls `sha2::Sha256::digest` (the `Digest` trait) on `data` and hands back
/// the digest's bytes. Claimed: they are `sha256` of the input, and there are
/// 32 of them, as the output type `GenericArray<u8, U32>` fixes.
#[verifier::external_body]
fn sha256_digest(data: &[u8]) -> (r: Vec<u8>)
    ensures
        r@ == sha256(data@),
        r@.len() == 32,
{
    sha2::Sha256::digest(data).to_vec()
}

/// The text whose chars are the given ASCII bytes.
pub open spec fn ascii_text(b: Seq<u8>) -> Seq<char> {
    b.map_values(|x: u8| x as char)
}

/// All bytes are ASCII.
pub open spec fn all_ascii(b: Seq<u8>) -> bool {
    forall|i: int| 0 <= i < b.len() ==> #[trigger] b[i] < 128
}

/// Calls `String::from_utf8` on bytes that are all ASCII. Claimed, as UTF-8
/// decoding gives for ASCII: one char per byte, of the same value. The
/// conversion cannot fail on such bytes; the error branch hands back an
/// empty string.
#[verifier::external_body]
fn ascii_string(bytes: Vec<u8>) -> (s: String)
    requires
        all_ascii(bytes@),
    ensures
        s@ == ascii_text(bytes@),
{
    String::from_utf8(bytes).unwrap_or_default()
}

/// `_w`, the mark before a width limit in a cache key.
pub open spec fn width_mark() -> Seq<u8> {
    seq![0x5fu8, 0x77u8]
}

/// The cache key of a GIF file with contents `data`, decoded with the width
/// limit `max_width`: the first 16 lowercase hexadecimal digits of the file's
/// SHA-256 digest, then `_w` and the limit in decimal where there is one.
pub open spec fn cache_key_bytes(data: Seq<u8>, max_width: Option<u32>) -> Seq<u8> {
    hash_hex16(data) + match max_width {
        Some(w) => width_mark() + decimal(w as nat),
        None => Seq::empty(),
    }
}

/// The hexadecimal text of a prefix is the matching prefix of the text.
pub proof fn lemma_hex_prefix(s: Seq<u8>, k: nat)
    requires
        k <= s.len(),
    ensures
        hex_lower(s).subrange(0, 2 * k as int) == hex_lower(s.subrange(0, k as int)),
    decreases s.len(),
{
    lemma_hex_lower_shape(s);
    if k == s.len() {
        assert(s.subrange(0, k as int) == s);
    } else {
        lemma_hex_lower_shape(s.drop_last());
        lemma_hex_prefix(s.drop_last(), k);
        assert(s.drop_last().subrange(0, k as int) == s.subrange(0, k as int));
        assert(hex_lower(s).subrange(0, 2 * k as int) == hex_lower(s.drop_last()).subrange(0, 2 * k as int));
    }
}

/// The first 16 lowercase hexadecimal digits of the SHA-256 digest of `data`.
pub open spec fn hash_hex16(data: Seq<u8>) -> Seq<u8> {
    hex_lower(sha256(data)).subrange(0, 16)
}

/// A lowercase hexadecimal digit char: `0-9` or `a-f`.
pub open spec fn is_hex_char(c: char) -> bool {
    (48 <= c as u32 <= 57) || (97 <= c as u32 <= 102)
}

/// A lowercase hexadecimal digit byte: `0-9` or `a-f`.
pub open spec fn is_hex_byte(b: u8) -> bool {
    (48 <= b <= 57) || (97 <= b <= 102)
}

/// `h` begins with the first 8 bytes of the SHA-256 digest of `data`, each
/// as two digits of `0123456789abcdef`, high nibble first.
pub open spec fn digest_digits(h: Seq<u8>, data: Seq<u8>) -> bool {
    &&& sha256(data).len() == 32
    &&& h.len() >= 16
    &&& forall|i: int|
        0 <= i < 8 ==> {
            &&& #[trigger] h[2 * i] == hex_alphabet()[(sha256(data)[i] / 16) as int]
            &&& h[2 * i + 1] == hex_alphabet()[(sha256(data)[i] % 16) as int]
        }
}

/// `t` begins with the chars of the first 8 bytes of the SHA-256 digest of
/// `data`, each as two digits of `0123456789abcdef`, high nibble first.
pub open spec fn digest_digit_chars(t: Seq<char>, data: Seq<u8>) -> bool {
    &&& sha256(data).len() == 32
    &&& t.len() >= 16
    &&& forall|i: int|
        0 <= i < 8 ==> {
            &&& #[trigger] t[2 * i] == hex_alphabet()[(sha256(data)[i] / 16) as int] as char
            &&& t[2 * i + 1] == hex_alphabet()[(sha256(data)[i] % 16) as int] as char
        }
}

/// The text of bytes that begin with the digest digits begins with them.
proof fn lemma_digest_digit_text(b: Seq<u8>, data: Seq<u8>)
    requires
        digest_digits(b, data),
    ensures
        digest_digit_chars(ascii_text(b), data),
{
    assert forall|i: int| 0 <= i < 8 implies {
        &&& #[trigger] ascii_text(b)[2 * i] == hex_alphabet()[(sha256(data)[i] / 16) as int] as char
        &&& ascii_text(b)[2 * i + 1] == hex_alphabet()[(sha256(data)[i] % 16) as int] as char
    } by {
        assert(b[2 * i] == hex_alphabet()[(sha256(data)[i] / 16) as int]);
        assert(ascii_text(b)[2 * i] == (b[2 * i] as char));
        assert(ascii_text(b)[2 * i + 1] == (b[2 * i + 1] as char));
    }
}

/// The hexadecimal digest prefix of a file's contents, as bytes.
fn hash_hex16_bytes(data: &[u8]) -> (r: Vec<u8>)
    ensures
        r@ == hash_hex16(data@),
        r@.len() == 16,
        all_ascii(r@),
        forall|k: int| 0 <= k < 16 ==> is_hex_byte(#[trigger] r@[k]),
        digest_digits(r@, data@),
{
    let digest = sha256_digest(data);
    let mut first: Vec<u8> = Vec::new();
    let mut i: usize = 0;
    while i < 8
        invariant
            digest@.len() == 32,
            i <= 8,
            first@ == digest@.subrange(0, i as int),
        decreases 8 - i,
    {
        first.push(digest[i]);
        i = i + 1;
        proof {
            assert(first@ == digest@.subrange(0, i as int));
        }
    }
    let mut b: Vec<u8> = Vec::new();
    push_hex_lower(&mut b, first.as_slice());
    proof {
        lemma_hex_prefix(digest@, 8);
        lemma_hex_lower_shape(first@);
        assert forall|i: int| 0 <= i < 8 implies {
            &&& #[trigger] b@[2 * i] == hex_alphabet()[(sha256(data@)[i] / 16) as int]
            &&& b@[2 * i + 1] == hex_alphabet()[(sha256(data@)[i] % 16) as int]
        } by {
            assert(first@[i] == sha256(data@)[i]);
        }
        assert forall|k: int| 0 <= k < b@.len() implies #[trigger] b@[k] < 128 && is_hex_byte(b@[k]) by {
            assert(b@[k] == hex_lower(first@)[k]);
        }
    }
    b
}

/// The text of a hexadecimal byte is a hexadecimal char.
proof fn lemma_hex_text(b: Seq<u8>, n: int)
    requires
        0 <= n <= b.len(),
        forall|k: int| 0 <= k < n ==> is_hex_byte(#[trigger] b[k]),
    ensures
        forall|k: int| 0 <= k < n ==> is_hex_char(#[trigger] ascii_text(b)[k]),
{
    assert forall|k: int| 0 <= k < n implies is_hex_char(#[trigger] ascii_text(b)[k]) by {
        let c = b[k];
        assert(ascii_text(b)[k] == (c as char));
        assert((c as char) as u32 == c as u32);
    }
}

/// Hashes a file's contents: the first 16 lowercase hexadecimal digits of
/// their SHA-256 digest.
pub fn hash_file(data: &[u8]) -> (h: String)
    ensures
        h@ == ascii_text(hash_hex16(data@)),
        h@.len() == 16,
        forall|k: int| 0 <= k < 16 ==> is_hex_char(#[trigger] h@[k]),
        digest_digit_chars(h@, data@),
{
    let b = hash_hex16_bytes(data);
    proof {
        lemma_hex_text(b@, 16);
        lemma_digest_digit_text(b@, data@);
    }
    ascii_string(b)
}

/// Computes the cache key of a GIF file from its contents and the width
/// limit it is decoded with.
pub fn cache_key(data: &[u8], max_width: Option<u32>) -> (key: String)
    ensures
        key@ == ascii_text(cache_key_bytes(data@, max_width)),
        key@.len() >= 16,
        forall|k: int| 0 <= k < 16 ==> is_hex_char(#[trigger] key@[k]),
        max_width is None ==> key@.len() == 16,
        digest_digit_chars(key@, data@),
{
    let mut b = hash_hex16_bytes(data);
    let ghost hash = b@;
    match max_width {
        Some(w) => {
            b.push(0x5f);
            b.push(0x77);
            push_decimal(&mut b, w as u64);
            proof {
                assert(b@ == hash + (width_mark() + decimal(w as nat)));
                lemma_decimal_digits(w as nat);
                assert forall|k: int| 0 <= k < b@.len() implies #[trigger] b@[k] < 128 by {
                    if k < 16 {
                        assert(b@[k] == hash[k]);
                    } else if k >= 18 {
                        assert(b@[k] == decimal(w as nat)[k - 18]);
                    }
                }
            }
        },
        None => {
            proof {
                assert(b@ == hash + Seq::<u8>::empty());
            }
        },
    }
    proof {
        assert forall|k: int| 0 <= k < 16 implies is_hex_byte(#[trigger] b@[k]) by {
            assert(b@[k] == hash[k]);
        }
        lemma_hex_text(b@, 16);
        assert forall|i: int| 0 <= i < 8 implies {
            &&& #[trigger] b@[2 * i] == hex_alphabet()[(sha256(data@)[i] / 16) as int]
            &&& b@[2 * i + 1] == hex_alphabet()[(sha256(data@)[i] % 16) as int]
        } by {
            assert(b@[2 * i] == hash[2 * i]);
            assert(b@[2 * i + 1] == hash[2 * i + 1]);
        }
        lemma_digest_digit_text(b@, data@);
    }
    ascii_string(b)
}

/// A file's entries under two width limits are kept apart: equal keys for
/// the same contents mean the same limit (or none for both).
pub proof fn lemma_cache_key_width_injective(data: Seq<u8>, a: Option<u32>, b: Option<u32>)
    requires
        cache_key_bytes(data, a) == cache_key_bytes(data, b),
    ensures
        a == b,
{
    let h = hash_hex16(data);
    let ka = cache_key_bytes(data, a);
    let kb = cache_key_bytes(data, b);
    match (a, b) {
        (Some(x), Some(y)) => {
            let n = h.len() + 2;
            assert(ka.subrange(n as int, ka.len() as int) == decimal(x as nat));
            assert(kb.subrange(n as int, kb.len() as int) == decimal(y as nat));
            lemma_decimal_value(x as nat);
            lemma_decimal_value(y as nat);
        },
        (Some(x), None) => {
            lemma_decimal_digits(x as nat);
            assert(ka.len() > kb.len());
        },
        (None, Some(y)) => {
            lemma_decimal_digits(y as nat);
            assert(kb.len() > ka.len());
        },
        (None, None) => {},
    }
}

/// A text made of ASCII bytes other than `/` does not start with `/`.
proof fn lemma_ascii_text_no_slash_start(b: Seq<u8>)
    requires
        b.len() > 0,
        b[0] != 0x2fu8,
    ensures
        ascii_text(b)[0] != '/',
{
    let c = b[0];
    assert(ascii_text(b)[0] == (c as char));
    assert((c as char) as u32 == c as u32);
}

/// A cache entry lies inside the cache directory: the entry's path is the
/// directory, then (where needed) `/`, then the key. The digest's 32 bytes
/// are those that `sha256_digest` hands out.
pub proof fn lemma_cache_entry_inside_dir(dir: Seq<char>, data: Seq<u8>, max_width: Option<u32>)
    requires
        sha256(data).len() == 32,
    ensures
        ({
            let key = ascii_text(cache_key_bytes(data, max_width));
            let entry = joined(dir, key);
            &&& entry.subrange(0, dir.len() as int) == dir
            &&& entry.subrange(entry.len() - key.len(), entry.len() as int) == key
        }),
{
    let kb = cache_key_bytes(data, max_width);
    lemma_hex_lower_shape(sha256(data));
    assert(kb[0] == hex_lower(sha256(data))[0]);
    lemma_ascii_text_no_slash_start(kb);
    lemma_joined_relative(dir, ascii_text(kb));
}

/// A frame's file lies inside its cache entry.
pub proof fn lemma_frame_file_inside_entry(entry: Seq<char>, i: nat)
    ensures
        ({
            let name = ascii_text(frame_file_bytes(i));
            let path = joined(entry, name);
            &&& path.subrange(0, entry.len() as int) == entry
            &&& path.subrange(path.len() - name.len(), path.len() as int) == name
        }),
{
    let b = frame_file_bytes(i);
    lemma_decimal_digits(i);
    let d = decimal(i);
    if d.len() < 4 {
        assert(b[0] == 48u8);
    } else {
        assert(b[0] == d[0]);
    }
    lemma_ascii_text_no_slash_start(b);
    crate::paths::lemma_joined_relative(entry, ascii_text(b));
}

/// `.rgba`, the extension of a cached frame's file.
pub open spec fn rgba_extension() -> Seq<u8> {
    seq![0x2eu8, 0x72u8, 0x67u8, 0x62u8, 0x61u8]
}

/// Name of the file that holds frame `i` of a cache entry: the index in
/// decimal, padded with zeros to four digits, then `.rgba`.
pub open spec fn frame_file_bytes(i: nat) -> Seq<u8> {
    zero_pad(decimal(i), 4) + rgba_extension()
}

/// Builds the name of the file that holds frame `i` of a cache entry.
pub fn frame_file_name(i: usize) -> (name: String)
    ensures
        name@ == ascii_text(frame_file_bytes(i as nat)),
{
    let mut b: Vec<u8> = Vec::new();
    push_padded_decimal(&mut b, i as u64, 4);
    let ghost digits = b@;
    b.push(0x2e);
    b.push(0x72);
    b.push(0x67);
    b.push(0x62);
    b.push(0x61);
    proof {
        assert(b@ == digits + rgba_extension());
        lemma_decimal_digits(i as nat);
        assert forall|k: int| 0 <= k < b@.len() implies #[trigger] b@[k] < 128 by {
            if k < digits.len() {
                if decimal(i as nat).len() < 4 {
                    let pad = (4 - decimal(i as nat).len()) as nat;
                    if k >= pad {
                        assert(digits[k] == decimal(i as nat)[k - pad]);
                    }
                } else {
                    assert(digits[k] == decimal(i as nat)[k]);
                }
            }
        }
    }
    ascii_string(b)
}

/// Distinct frames get distinct file names.
pub proof fn lemma_frame_file_names_distinct(i: nat, j: nat)
    requires
        frame_file_bytes(i) == frame_file_bytes(j),
    ensures
        i == j,
{
    let a = frame_file_bytes(i);
    let b = frame_file_bytes(j);
    let pa = zero_pad(decimal(i), 4);
    let pb = zero_pad(decimal(j), 4);
    assert(a.subrange(0, a.len() - 5) == pa);
    assert(b.subrange(0, b.len() - 5) == pb);
    lemma_padded_decimal_injective(i, j, 4);
}

/// Where the cache lives: `$XDG_CACHE_HOME/gifterm` where that variable is
/// set, else `$HOME/.cache/gifterm`, else `/tmp/.cache/gifterm`.
pub open spec fn cache_dir_path(xdg_cache_home: Option<Seq<char>>, home: Option<Seq<char>>) -> Seq<char> {
    let base = match xdg_cache_home {
        Some(x) => x,
        None => joined(
            match home {
                Some(h) => h,
                None => "/tmp"@,
            },
            ".cache"@,
        ),
    };
    joined(base, "gifterm"@)
}

/// Without `XDG_CACHE_HOME`, the cache lives in `.cache/gifterm` under
/// `HOME`, whatever `HOME` is: its path starts with `HOME`'s and is
/// `HOME` joined with `.cache`, then with `gifterm`. With `XDG_CACHE_HOME`,
/// it is that directory joined with `gifterm`, whatever `HOME` is.
pub proof fn lemma_cache_dir_under_home(h: Seq<char>, x: Seq<char>, other: Option<Seq<char>>)
    ensures
        cache_dir_path(None, Some(h)) == joined(joined(h, ".cache"@), "gifterm"@),
        cache_dir_path(None, Some(h)).subrange(0, h.len() as int) == h,
        cache_dir_path(Some(x), other) == joined(x, "gifterm"@),
        cache_dir_path(Some(x), other).subrange(0, x.len() as int) == x,
{
    reveal_strlit("gifterm");
    reveal_strlit(".cache");
    lemma_joined_relative(h, ".cache"@);
    lemma_joined_relative(joined(h, ".cache"@), "gifterm"@);
    lemma_joined_relative(x, "gifterm"@);
    let j = joined(h, ".cache"@);
    let d = joined(j, "gifterm"@);
    assert(d.subrange(0, h.len() as int) == j.subrange(0, h.len() as int));
}

/// The cache directory, given the values of `XDG_CACHE_HOME` and `HOME`
/// (`None` where a variable is unset or not valid Unicode).
pub fn cache_dir_for(xdg_cache_home: Option<&str>, home: Option<&str>) -> (dir: String)
    ensures
        dir@ == cache_dir_path(
            match xdg_cache_home {
                Some(x) => Some(x@),
                None => None,
            },
            match home {
                Some(h) => Some(h@),
                None => None,
            },
        ),
        xdg_cache_home matches Some(x) ==> dir@ == joined(x@, "gifterm"@),
        xdg_cache_home matches Some(x) ==> dir@.subrange(0, x@.len() as int) == x@,
        xdg_cache_home is None ==> (home matches Some(h) ==> dir@ == joined(
            joined(h@, ".cache"@),
            "gifterm"@,
        )),
        xdg_cache_home is None ==> (home matches Some(h) ==> dir@.subrange(0, h@.len() as int)
            == h@),
        (xdg_cache_home is None && home is None) ==> dir@ == joined(
            joined("/tmp"@, ".cache"@),
            "gifterm"@,
        ),
{
    proof {
        reveal_strlit("gifterm");
        reveal_strlit(".cache");
        match xdg_cache_home {
            Some(x) => {
                lemma_joined_relative(x@, "gifterm"@);
            },
            None => {
                match home {
                    Some(h) => {
                        lemma_joined_relative(h@, ".cache"@);
                        lemma_joined_relative(joined(h@, ".cache"@), "gifterm"@);
                        let j = joined(h@, ".cache"@);
                        let d = joined(j, "gifterm"@);
                        assert(d.subrange(0, h@.len() as int) == j.subrange(0, h@.len() as int));
                    },
                    None => {},
                }
            },
        }
    }
    match xdg_cache_home {
        Some(x) => join_path(x, "gifterm"),
        None => {
            let h: &str = match home {
                Some(h) => h,
                None => "/tmp",
            };
            let base = join_path(h, ".cache");
            join_path(base.as_str(), "gifterm")
        },
    }
}

/// Total number of bytes in a list of frames.
pub open spec fn total_len(frames: Seq<Vec<u8>>) -> nat
    decreases frames.len(),
{
    if frames.len() == 0 {
        0
    } else {
        total_len(frames.drop_last()) + frames.last()@.len()
    }
}

/// Size of a cache entry's frames in whole kilobytes (1024 bytes), rounded
/// down.
pub fn cache_size_kb(frames: &Vec<Vec<u8>>) -> (kb: usize)
    requires
        total_len(frames@) <= usize::MAX,
    ensures
        kb == total_len(frames@) / 1024,
{
    let mut total: usize = 0;
    let mut i: usize = 0;
    while i < frames.len()
        invariant
            i <= frames@.len(),
            total == total_len(frames@.subrange(0, i as int)),
            total_len(frames@) <= usize::MAX,
        decreases frames@.len() - i,
    {
        proof {
            lemma_total_len_prefix_bound(frames@, (i + 1) as nat);
            assert(frames@.subrange(0, i + 1).drop_last() == frames@.subrange(0, i as int));
        }
        total = total + frames[i].len();
        i = i + 1;
    }
    proof {
        assert(frames@.subrange(0, frames@.len() as int) == frames@);
    }
    total / 1024
}

/// A prefix of a frame list holds no more bytes than the list.
pub proof fn lemma_total_len_prefix_bound(frames: Seq<Vec<u8>>, k: nat)
    requires
        k <= frames.len(),
    ensures
        total_len(frames.subrange(0, k as int)) <= total_len(frames),
    decreases frames.len(),
{
    if k < frames.len() {
        lemma_total_len_prefix_bound(frames.drop_last(), k);
        assert(frames.drop_last().subrange(0, k as int) == frames.subrange(0, k as int));
    } else {
        assert(frames.subrange(0, k as int) == frames);
    }
}

} // verus!
