//! The key bundled and themed icons are cached under, and where downloaded
//! artwork is kept on disk: a directory under the user's cache, and a file
//! named after a hash of the artwork's key with an image extension.
use crate::text::{
    ascii_lower, chars_of, ends_with_within, is_prefix, is_suffix, join_path, lower_ascii_char, path_join,
    str_concat, str_equal, string_from_chars, to_owned_string,
};
use std::hash::Hasher;
use vstd::prelude::*;

verus! {

/// An icon of a given name at a given size.
#[derive(Clone, Copy, Debug, PartialEq, Eq, Hash)]
pub struct IconCacheKey {
    name: &'static str,
    size: u16,
}

impl IconCacheKey {
    /// The key of icon `name` at `size`.
    pub fn new(name: &'static str, size: u16) -> (r: Self)
        ensures
            r.name() == name@,
            r.size() == size,
    {
        IconCacheKey { name, size }
    }

    /// The icon's name.
    pub closed spec fn name(self) -> Seq<char> {
        self.name@
    }

    /// The icon's size.
    pub closed spec fn size(self) -> u16 {
        self.size
    }

    /// Whether the icon is drawn in the theme's symbolic style, as the ones
    /// whose names end in `-symbolic` are.
    pub fn symbolic(&self) -> (r: bool)
        ensures
            r == is_suffix("-symbolic"@, self.name()),
    {
        let n = chars_of(self.name);
        let r = ends_with_within(&n, &chars_of("-symbolic"), n.len());
        assert(n@.subrange(0, n@.len() as int) =~= n@);
        r
    }
}


/// The path part of `url` as the `url` crate parses it, or `None` when it does
/// not parse.
pub uninterp spec fn url_path_of(url: Seq<char>) -> Option<Seq<char>>;

/// Calls `url::Url::parse` and reads the parsed URL's `path`; the result is
/// named [`url_path_of`]. The WHATWG parsing rules it applies are not spelled
/// out here.
#[verifier::external_body]
fn url_path(url: &str) -> (r: Option<String>)
    ensures
        match r {
            Some(p) => url_path_of(url@) == Some(p@),
            None => url_path_of(url@) is None,
        },
{
    url::Url::parse(url).ok().map(|parsed| parsed.path().to_owned())
}

/// The extension `Path::extension` finds in `path`.
pub uninterp spec fn path_extension_of(path: Seq<char>) -> Option<Seq<char>>;

/// Calls `Path::extension` on `path`; the result is named
/// [`path_extension_of`]. Its rules (the last component, a leading dot that
/// does not count) are not spelled out here.
#[verifier::external_body]
fn file_extension(path: &str) -> (r: Option<String>)
    ensures
        match r {
            Some(e) => path_extension_of(path@) == Some(e@),
            None => path_extension_of(path@) is None,
        },
{
    std::path::Path::new(path).extension().and_then(|extension| extension.to_str()).map(str::to_owned)
}

/// The 64-bit hash `DefaultHasher` makes of the bytes of `key`.
pub uninterp spec fn key_hash_of(key: Seq<char>) -> u64;

/// Hashes the bytes of `key` with a new `DefaultHasher`; the result is named
/// [`key_hash_of`]. A `DefaultHasher` made by `new` is not seeded per process,
/// so the same key gives the same hash in every run of the program; SipHash
/// itself is not spelled out here.
#[verifier::external_body]
fn key_hash(key: &str) -> (r: u64)
    ensures
        r == key_hash_of(key@),
{
    let mut hasher = std::hash::DefaultHasher::new();
    hasher.write(key.as_bytes());
    hasher.finish()
}

/// The lowercase hexadecimal digit of `d`.
pub open spec fn hex_digit(d: int) -> char {
    seq!['0', '1', '2', '3', '4', '5', '6', '7', '8', '9', 'a', 'b', 'c', 'd', 'e', 'f'][d]
}

/// `n` in lowercase hexadecimal, `width` digits wide with leading zeros (the
/// low `width` digits).
pub open spec fn lower_hex(n: nat, width: nat) -> Seq<char>
    decreases width,
{
    if width == 0 {
        seq![]
    } else {
        lower_hex(n / 16, (width - 1) as nat).push(hex_digit((n % 16) as int))
    }
}

proof fn lemma_lower_hex(n: nat, width: nat)
    ensures
        lower_hex(n, width).len() == width,
        forall|i: int| 0 <= i < width ==> #[trigger] lower_hex(n, width)[i] != '/',
    decreases width,
{
    if width > 0 {
        lemma_lower_hex(n / 16, (width - 1) as nat);
        let d = (n % 16) as int;
        let digits = seq!['0', '1', '2', '3', '4', '5', '6', '7', '8', '9', 'a', 'b', 'c', 'd', 'e', 'f'];
        assert(forall|k: int| 0 <= k < 16 ==> #[trigger] digits[k] != '/');
        assert(hex_digit(d) == digits[d]);
        let shorter = lower_hex(n / 16, (width - 1) as nat);
        assert forall|i: int| 0 <= i < width implies #[trigger] lower_hex(n, width)[i] != '/' by {
            if i < width - 1 {
                assert(lower_hex(n, width)[i] == shorter[i]);
            }
        }
    }
}

fn push_hex(v: &mut Vec<char>, n: u64, width: u64)
    ensures
        final(v)@ == old(v)@ + lower_hex(n as nat, width as nat),
    decreases width,
{
    if width == 0 {
        assert(old(v)@ + lower_hex(n as nat, 0) =~= old(v)@);
        return;
    }
    push_hex(v, n / 16, width - 1);
    let digits = ['0', '1', '2', '3', '4', '5', '6', '7', '8', '9', 'a', 'b', 'c', 'd', 'e', 'f'];
    let d = (n % 16) as usize;
    let c = digits[d];
    assert(c == hex_digit(d as int)) by {
        assert(digits@ =~= seq!['0', '1', '2', '3', '4', '5', '6', '7', '8', '9', 'a', 'b', 'c', 'd', 'e', 'f']);
    }
    let ghost before = v@;
    v.push(c);
    assert(v@ =~= old(v)@ + lower_hex(n as nat, width as nat)) by {
        assert(lower_hex(n as nat, width as nat) == lower_hex((n / 16) as nat, (width - 1) as nat).push(
            hex_digit((n % 16) as int),
        ));
    }
}

/// The name of the cached file of the artwork with key `key`: its hash in
/// sixteen hexadecimal digits, a dot and `extension`.
pub open spec fn icon_file_name_of(key: Seq<char>, extension: Seq<char>) -> Seq<char> {
    lower_hex(key_hash_of(key) as nat, 16) + "."@ + extension
}

/// The name of the cached file of the artwork with key `key`.
pub fn icon_file_name(key: &str, extension: &str) -> (r: String)
    ensures
        r@ == icon_file_name_of(key@, extension@),
{
    let mut v: Vec<char> = Vec::new();
    push_hex(&mut v, key_hash(key), 16);
    assert(v@ =~= lower_hex(key_hash_of(key@) as nat, 16));
    str_concat(str_concat(string_from_chars(&v).as_str(), ".").as_str(), extension)
}

/// The ASCII lowercase of `s`.
pub open spec fn ascii_lowercase(s: Seq<char>) -> Seq<char> {
    s.map_values(|c: char| ascii_lower(c))
}

fn to_ascii_lowercase(s: &str) -> (r: String)
    ensures
        r@ == ascii_lowercase(s@),
{
    let cs = chars_of(s);
    let mut out: Vec<char> = Vec::new();
    let mut i: usize = 0;
    while i < cs.len()
        invariant
            i <= cs@.len(),
            cs@ == s@,
            out@ == ascii_lowercase(s@).subrange(0, i as int),
        decreases cs@.len() - i,
    {
        out.push(lower_ascii_char(cs[i]));
        assert(out@ =~= ascii_lowercase(s@).subrange(0, i + 1));
        i = i + 1;
    }
    assert(ascii_lowercase(s@).subrange(0, cs@.len() as int) =~= ascii_lowercase(s@));
    string_from_chars(&out)
}

/// An image extension the cache keeps as it is.
pub open spec fn kept_extension(e: Seq<char>) -> bool {
    e == "jpg"@ || e == "jpeg"@ || e == "png"@ || e == "svg"@ || e == "webp"@
}

/// The extension downloaded artwork is cached with: the URL path's own,
/// lowercased, when it is one of jpg, jpeg, png, svg and webp; else png.
pub open spec fn artwork_extension_of(url: Seq<char>) -> Seq<char> {
    match url_path_of(url) {
        Some(path) => match path_extension_of(path) {
            Some(e) => if kept_extension(ascii_lowercase(e)) {
                ascii_lowercase(e)
            } else {
                "png"@
            },
            None => "png"@,
        },
        None => "png"@,
    }
}

/// The extension downloaded artwork is cached with, as
/// [`artwork_extension_of`] says.
pub fn artwork_extension(url: &str) -> (r: String)
    ensures
        r@ == artwork_extension_of(url@),
{
    let path = match url_path(url) {
        Some(p) => p,
        None => {
            return to_owned_string("png");
        },
    };
    let extension = match file_extension(path.as_str()) {
        Some(e) => e,
        None => {
            return to_owned_string("png");
        },
    };
    let lowered = to_ascii_lowercase(extension.as_str());
    let l = lowered.as_str();
    if str_equal(l, "jpg") || str_equal(l, "jpeg") || str_equal(l, "png") || str_equal(l, "svg") || str_equal(
        l,
        "webp",
    ) {
        lowered
    } else {
        to_owned_string("png")
    }
}

/// The directory downloaded artwork is cached in: `hearthdeck/icons` under
/// `$XDG_CACHE_HOME`, else under `$HOME/.cache`, else under `/tmp`.
pub open spec fn artwork_cache_dir_of(xdg_cache_home: Option<Seq<char>>, home: Option<Seq<char>>) -> Seq<char> {
    let cache = match xdg_cache_home {
        Some(c) => c,
        None => match home {
            Some(h) => path_join(h, ".cache"@),
            None => "/tmp"@,
        },
    };
    path_join(cache, "hearthdeck/icons"@)
}

/// The directory downloaded artwork is cached in, from the values of
/// `XDG_CACHE_HOME` and `HOME`.
pub fn artwork_cache_dir(xdg_cache_home: Option<&str>, home: Option<&str>) -> (r: String)
    ensures
        r@ == artwork_cache_dir_of(
            match xdg_cache_home {
                Some(c) => Some(c@),
                None => None,
            },
            match home {
                Some(h) => Some(h@),
                None => None,
            },
        ),
{
    proof {
        reveal_strlit(".cache");
        reveal_strlit("hearthdeck/icons");
    }
    let cache = match xdg_cache_home {
        Some(c) => to_owned_string(c),
        None => match home {
            Some(h) => join_path(h, ".cache"),
            None => to_owned_string("/tmp"),
        },
    };
    join_path(cache.as_str(), "hearthdeck/icons")
}

/// Where the artwork downloaded from `url` is cached, in `cache_dir`: the file
/// named after the URL's hash, with [`artwork_extension_of`].
pub fn artwork_cache_path(cache_dir: &str, url: &str) -> (r: String)
    ensures
        r@ == path_join(cache_dir@, icon_file_name_of(url@, artwork_extension_of(url@))),
{
    let name = icon_file_name(url, artwork_extension(url).as_str());
    proof {
        lemma_lower_hex(key_hash_of(url@) as nat, 16);
        assert(name@[0] == lower_hex(key_hash_of(url@) as nat, 16)[0]);
    }
    join_path(cache_dir, name.as_str())
}

/// Artwork a catalog item names by URL is downloaded into the cache; any
/// other icon is used as it is.
pub fn is_remote_artwork(icon: &str) -> (r: bool)
    ensures
        r == (is_prefix("http://"@, icon@) || is_prefix("https://"@, icon@)),
{
    let v = chars_of(icon);
    crate::text::starts_with_chars(&v, &chars_of("http://")) || crate::text::starts_with_chars(
        &v,
        &chars_of("https://"),
    )
}

/// The files the artwork with key `key` may already be cached as in
/// `cache_dir`, tried in this order: jpg, png, webp.
pub fn cached_artwork_candidates(cache_dir: &str, key: &str) -> (r: Vec<String>)
    ensures
        r@.len() == 3,
        r@[0]@ == path_join(cache_dir@, icon_file_name_of(key@, "jpg"@)),
        r@[1]@ == path_join(cache_dir@, icon_file_name_of(key@, "png"@)),
        r@[2]@ == path_join(cache_dir@, icon_file_name_of(key@, "webp"@)),
{
    let jpg = icon_file_name(key, "jpg");
    let png = icon_file_name(key, "png");
    let webp = icon_file_name(key, "webp");
    proof {
        let hex = lower_hex(key_hash_of(key@) as nat, 16);
        lemma_lower_hex(key_hash_of(key@) as nat, 16);
        assert(jpg@[0] == hex[0] && png@[0] == hex[0] && webp@[0] == hex[0]);
    }
    vec![
        join_path(cache_dir, jpg.as_str()),
        join_path(cache_dir, png.as_str()),
        join_path(cache_dir, webp.as_str()),
    ]
}

} // verus!
