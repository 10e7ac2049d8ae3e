//! Content hashing for static assets.
//!
//! Fingerprints files copied from `static/` to `dist/` by embedding a
//! content hash in the filename (e.g. `style.css` becomes
//! `style.a1b2c3d4e5f67890.css`), which enables immutable caching.
//!
//! The library part here computes hashes and names, keeps the manifest of
//! original to hashed URL paths, and rewrites references in file contents;
//! walking `dist/` and renaming files is left to the caller.

use sha2::Digest;
use crate::config::ContentHashConfig;
use vstd::prelude::*;
use crate::text::{
    chars_of, contains_seq, has_suffix, last_index_of, occurs_at, push_char, replace_all, rfind_char,
    rfind_upto, str_contains, str_eq, str_replace, string_of, sub_chars,
};

verus! {

// ---------------------------------------------------------------------------
// Hashing
// ---------------------------------------------------------------------------

/// The SHA-256 digest of `data`.
pub uninterp spec fn sha256_digest(data: Seq<u8>) -> Seq<u8>;

/// SHA-256 of `data`.
///
/// Trusted: calls `sha2::Sha256::digest`, whose output is the 32-byte
/// digest of its input; the digest itself is named, not stated.
#[verifier::external_body]
fn sha256(data: &[u8]) -> (r: Vec<u8>)
    ensures
        r@ == sha256_digest(data@),
        r@.len() == 32,
{
    sha2::Sha256::digest(data).to_vec()
}

/// The lowercase hexadecimal digit for `d < 16`.
pub open spec fn hex_digit(d: int) -> char {
    if d < 10 {
        (('0' as int) + d) as char
    } else {
        (('a' as int) + d - 10) as char
    }
}

/// The two lowercase hex digits of a byte (`{:02x}`).
pub open spec fn hex_byte(b: u8) -> Seq<char> {
    seq![hex_digit(b as int / 16), hex_digit(b as int % 16)]
}

/// The lowercase hex rendering of `bytes`, two digits per byte.
pub open spec fn hex_of(bytes: Seq<u8>) -> Seq<char>
    decreases bytes.len(),
{
    if bytes.len() == 0 {
        seq![]
    } else {
        hex_of(bytes.drop_last()) + hex_byte(bytes.last())
    }
}

/// A lowercase hexadecimal digit.
pub open spec fn is_lower_hex(c: char) -> bool {
    ('0' <= c && c <= '9') || ('a' <= c && c <= 'f')
}

/// The content hash of `data`: the first 8 bytes of its SHA-256 digest in
/// lowercase hex.
pub open spec fn content_hash_of(data: Seq<u8>) -> Seq<char> {
    hex_of(sha256_digest(data).subrange(0, 8))
}

/// The hex digit character of `d < 16`.
fn hex_char(d: u8) -> (c: char)
    requires
        d < 16,
    ensures
        c == hex_digit(d as int),
        is_lower_hex(c),
{
    match d {
        0 => '0',
        1 => '1',
        2 => '2',
        3 => '3',
        4 => '4',
        5 => '5',
        6 => '6',
        7 => '7',
        8 => '8',
        9 => '9',
        10 => 'a',
        11 => 'b',
        12 => 'c',
        13 => 'd',
        14 => 'e',
        _ => 'f',
    }
}

/// The hex rendering is two lowercase hex digits per byte.
pub proof fn lemma_hex_shape(bytes: Seq<u8>)
    ensures
        hex_of(bytes).len() == 2 * bytes.len(),
        forall|i: int| 0 <= i < hex_of(bytes).len() ==> is_lower_hex(#[trigger] hex_of(bytes)[i]),
    decreases bytes.len(),
{
    if bytes.len() > 0 {
        lemma_hex_shape(bytes.drop_last());
        let b = bytes.last();
        assert(is_lower_hex(hex_digit(b as int / 16)));
        assert(is_lower_hex(hex_digit(b as int % 16)));
    }
}

/// Compute the content hash of a file's bytes: a 16-character lowercase
/// hex string (SHA-256 truncated to 8 bytes).
pub fn content_hash(data: &[u8]) -> (r: String)
    ensures
        r@ == content_hash_of(data@),
        r@.len() == 16,
        forall|i: int| 0 <= i < r@.len() ==> is_lower_hex(#[trigger] r@[i]),
{
    let digest = sha256(data);
    let ghost d = digest@.subrange(0, 8);
    let mut hex = String::new();
    let mut i: usize = 0;
    while i < 8
        invariant
            i <= 8,
            digest@.len() == 32,
            d == digest@.subrange(0, 8),
            hex@ == hex_of(d.subrange(0, i as int)),
        decreases 8 - i,
    {
        let b = digest[i];
        push_char(&mut hex, hex_char(b / 16));
        push_char(&mut hex, hex_char(b % 16));
        assert(d.subrange(0, i + 1).drop_last() =~= d.subrange(0, i as int));
        i = i + 1;
    }
    assert(d.subrange(0, 8) =~= d);
    proof {
        lemma_hex_shape(d);
    }
    hex
}

/// Equal contents always get the same hash.
pub proof fn law_content_hash_deterministic(a: Seq<u8>, b: Seq<u8>)
    requires
        a == b,
    ensures
        content_hash_of(a) == content_hash_of(b),
{
}

/// Every content hash is 16 lowercase hex digits.
pub proof fn law_content_hash_format(data: Seq<u8>)
    requires
        sha256_digest(data).len() == 32,
    ensures
        content_hash_of(data).len() == 16,
        forall|i: int| 0 <= i < 16 ==> is_lower_hex(#[trigger] content_hash_of(data)[i]),
{
    lemma_hex_shape(sha256_digest(data).subrange(0, 8));
}

// ---------------------------------------------------------------------------
// Hashed file names
// ---------------------------------------------------------------------------

/// The file name with `hash` inserted before the extension (after the last
/// dot), or appended after a dot when there is none.
pub open spec fn hashed_name(name: Seq<char>, hash: Seq<char>) -> Seq<char> {
    match last_index_of(name, '.') {
        Some(p) => name.subrange(0, p) + seq!['.'] + hash + seq!['.'] + name.subrange(p + 1, name.len() as int),
        None => name + seq!['.'] + hash,
    }
}

/// Construct a hashed filename from the original filename and hash:
/// `style.css` + `a1b2c3d4` gives `style.a1b2c3d4.css`, `LICENSE` gives
/// `LICENSE.a1b2c3d4`.
pub fn hashed_filename(original_filename: &str, hash: &str) -> (r: String)
    ensures
        r@ == hashed_name(original_filename@, hash@),
{
    let v = chars_of(original_filename);
    let n = v.len();
    match rfind_char(&v, '.') {
        Some(dot) => {
            proof {
                lemma_last_index_bounds(v@, '.');
                assert(dot < v@.len());
            }
            let stem = sub_chars(&v, 0, dot);
            let ext = sub_chars(&v, dot + 1, n);
            let mut r = string_of(&stem);
            push_char(&mut r, '.');
            r.append(hash);
            push_char(&mut r, '.');
            let e = string_of(&ext);
            r.append(e.as_str());
            r
        },
        None => {
            let mut r = string_of(&v);
            push_char(&mut r, '.');
            r.append(hash);
            r
        },
    }
}

/// The last index of a character lies inside the sequence and holds it.
pub proof fn lemma_last_index_bounds(s: Seq<char>, c: char)
    ensures
        last_index_of(s, c) matches Some(p) ==> 0 <= p < s.len() && s[p] == c,
{
    lemma_rfind_upto_bounds(s, seq![c], s.len() - seq![c].len());
    if let Some(p) = last_index_of(s, c) {
        assert(s.subrange(p, p + 1)[0] == s[p]);
    }
}

/// A match found by `rfind_upto` lies at or before `upto` and is an
/// occurrence.
pub proof fn lemma_rfind_upto_bounds(s: Seq<char>, p: Seq<char>, upto: int)
    ensures
        rfind_upto(s, p, upto) matches Some(k) ==> 0 <= k <= upto && occurs_at(s, p, k),
    decreases upto + 1,
{
    if upto >= 0 && !occurs_at(s, p, upto) {
        lemma_rfind_upto_bounds(s, p, upto - 1);
    }
}

/// A hashed name keeps the original extension and contains the hash.
pub proof fn law_hashed_name_keeps_extension(name: Seq<char>, hash: Seq<char>)
    requires
        last_index_of(name, '.') is Some,
    ensures
        has_suffix(
            hashed_name(name, hash),
            seq!['.'] + name.subrange(last_index_of(name, '.')->0 + 1, name.len() as int),
        ),
        contains_seq(hashed_name(name, hash), hash),
{
    lemma_last_index_bounds(name, '.');
    let p = last_index_of(name, '.')->0;
    let stem = name.subrange(0, p);
    let ext = name.subrange(p + 1, name.len() as int);
    let r = hashed_name(name, hash);
    let tail = seq!['.'] + ext;
    assert(r == stem + seq!['.'] + hash + tail);
    assert(r.subrange(r.len() - tail.len(), r.len() as int) =~= tail);
    let at = (stem.len() + 1) as int;
    assert(r.subrange(at, at + hash.len()) =~= hash);
    assert(occurs_at(r, hash, at));
}

/// Every hashed name contains the hash.
pub proof fn law_hashed_name_contains_hash(name: Seq<char>, hash: Seq<char>)
    ensures
        contains_seq(hashed_name(name, hash), hash),
{
    if last_index_of(name, '.') is Some {
        law_hashed_name_keeps_extension(name, hash);
    } else {
        let r = hashed_name(name, hash);
        let at = (name.len() + 1) as int;
        assert(r.subrange(at, at + hash.len()) =~= hash);
        assert(occurs_at(r, hash, at));
    }
}

/// The URL path of a file (relative to `static/` or `dist/`, `/`
/// separated) and the URL path of its hashed copy in the same directory.
pub open spec fn hashed_url_pair(rel: Seq<char>, hash: Seq<char>) -> (Seq<char>, Seq<char>) {
    let original = seq!['/'] + rel;
    match last_index_of(rel, '/') {
        Some(p) => (
            original,
            seq!['/'] + rel.subrange(0, p) + seq!['/'] + hashed_name(rel.subrange(p + 1, rel.len() as int), hash),
        ),
        None => (original, seq!['/'] + hashed_name(rel, hash)),
    }
}

/// The manifest entry of a hashed file: its original URL path and the URL
/// path of the renamed file.
pub fn hashed_url_paths(rel: &str, hash: &str) -> (r: (String, String))
    ensures
        (r.0@, r.1@) == hashed_url_pair(rel@, hash@),
{
    let v = chars_of(rel);
    let n = v.len();
    let mut original = String::new();
    push_char(&mut original, '/');
    original.append(rel);
    match rfind_char(&v, '/') {
        Some(slash) => {
            proof {
                lemma_last_index_bounds(v@, '/');
            }
            let dir = sub_chars(&v, 0, slash);
            let file = sub_chars(&v, slash + 1, n);
            let file_s = string_of(&file);
            let name = hashed_filename(file_s.as_str(), hash);
            let mut hashed = String::new();
            push_char(&mut hashed, '/');
            let dir_s = string_of(&dir);
            hashed.append(dir_s.as_str());
            push_char(&mut hashed, '/');
            hashed.append(name.as_str());
            (original, hashed)
        },
        None => {
            let name = hashed_filename(rel, hash);
            let mut hashed = String::new();
            push_char(&mut hashed, '/');
            hashed.append(name.as_str());
            (original, hashed)
        },
    }
}

// ---------------------------------------------------------------------------
// Exclusion patterns
// ---------------------------------------------------------------------------

/// Whether `glob::Pattern::new` accepts `pattern`.
pub uninterp spec fn glob_pattern_valid(pattern: Seq<char>) -> bool;

/// Whether the compiled glob `pattern` matches `path`
/// (`glob::Pattern::matches`).
pub uninterp spec fn glob_pattern_matches(pattern: Seq<char>, path: Seq<char>) -> bool;

/// Match `path` against the glob `pattern`; `None` when the pattern does
/// not compile.
///
/// Trusted: calls `glob::Pattern::new(pattern)` and, when it succeeds,
/// `Pattern::matches(path)`; both results are named, not stated.
#[verifier::external_body]
pub(crate) fn glob_match(pattern: &str, path: &str) -> (r: Option<bool>)
    ensures
        r == (if glob_pattern_valid(pattern@) { Some(glob_pattern_matches(pattern@, path@)) } else { None }),
{
    match glob::Pattern::new(pattern) {
        Ok(p) => Some(p.matches(path)),
        Err(_) => None,
    }
}

/// Some valid pattern among `patterns[..n]` matches `path`.
pub open spec fn excluded_by(patterns: Seq<Seq<char>>, path: Seq<char>, n: int) -> bool {
    exists|i: int| 0 <= i < n && glob_pattern_valid(#[trigger] patterns[i]) && glob_pattern_matches(patterns[i], path)
}

/// Check whether a file (path relative to `static/`) is excluded from
/// content hashing by one of the glob patterns; invalid patterns are
/// skipped.
pub fn is_excluded(relative_path: &str, exclude_patterns: &[String]) -> (r: bool)
    ensures
        r == excluded_by(crate::text::strs_view(exclude_patterns@), relative_path@, exclude_patterns@.len() as int),
{
    let ghost ps = crate::text::strs_view(exclude_patterns@);
    let mut i: usize = 0;
    while i < exclude_patterns.len()
        invariant
            i <= exclude_patterns@.len(),
            ps == crate::text::strs_view(exclude_patterns@),
            !excluded_by(ps, relative_path@, i as int),
        decreases exclude_patterns@.len() - i,
    {
        assert(ps[i as int] == exclude_patterns@[i as int]@);
        match glob_match(exclude_patterns[i].as_str(), relative_path) {
            Some(true) => {
                assert(glob_pattern_valid(ps[i as int]));
                return true;
            },
            _ => {},
        }
        i = i + 1;
    }
    false
}

// ---------------------------------------------------------------------------
// The manifest
// ---------------------------------------------------------------------------

/// The map of a list of (original, hashed) pairs, later pairs overriding
/// earlier ones.
pub open spec fn pairs_map(s: Seq<(String, String)>) -> Map<Seq<char>, Seq<char>>
    decreases s.len(),
{
    if s.len() == 0 {
        Map::empty()
    } else {
        pairs_map(s.drop_last()).insert(s.last().0@, s.last().1@)
    }
}

/// No original path occurs twice.
pub open spec fn keys_distinct(s: Seq<(String, String)>) -> bool {
    forall|i: int, j: int| 0 <= i < j < s.len() ==> #[trigger] s[i].0@ != #[trigger] s[j].0@
}

/// Mapping from original asset URL paths to content-hashed URL paths,
/// e.g. `/css/style.css` to `/css/style.a1b2c3d4e5f67890.css`.
pub struct AssetManifest {
    /// The (original, hashed) pairs, each original path once.
    entries: Vec<(String, String)>,
}

impl View for AssetManifest {
    type V = Map<Seq<char>, Seq<char>>;

    closed spec fn view(&self) -> Map<Seq<char>, Seq<char>> {
        pairs_map(self.entries@)
    }
}

/// What a manifest resolves a path to: its hashed path when the manifest
/// has one, the path itself otherwise.
pub open spec fn resolved(m: Map<Seq<char>, Seq<char>>, p: Seq<char>) -> Seq<char> {
    if m.contains_key(p) {
        m[p]
    } else {
        p
    }
}

/// A manifest, read back: the path just inserted resolves to the hashed
/// path given with it, every other path resolves as before, and a path
/// never inserted resolves to itself.
pub proof fn law_manifest_insert_resolve(m: Map<Seq<char>, Seq<char>>, k: Seq<char>, v: Seq<char>, p: Seq<char>)
    ensures
        resolved(m.insert(k, v), k) == v,
        p != k ==> resolved(m.insert(k, v), p) == resolved(m, p),
        !m.contains_key(p) ==> resolved(m, p) == p,
{
}

/// The length of a manifest counts its distinct original paths: an
/// insert of a new path adds one, an insert of a known path adds none.
pub proof fn law_manifest_len_insert(m: Map<Seq<char>, Seq<char>>, k: Seq<char>, v: Seq<char>)
    requires
        m.dom().finite(),
    ensures
        m.insert(k, v).dom().len() == m.dom().len() + (if m.contains_key(k) { 0nat } else { 1nat }),
{
    if m.contains_key(k) {
        assert(m.insert(k, v).dom() =~= m.dom());
    } else {
        assert(m.insert(k, v).dom() =~= m.dom().insert(k));
    }
}

/// The original paths of a list of pairs.
pub open spec fn pair_keys(pairs: Seq<(Seq<char>, Seq<char>)>) -> Seq<Seq<char>> {
    pairs.map_values(|p: (Seq<char>, Seq<char>)| p.0)
}

/// Inserting pairs one by one into an empty manifest gives a manifest
/// whose original paths are exactly the distinct keys inserted: its
/// length is their number, and it is empty only when nothing was
/// inserted.
pub proof fn law_manifest_inserts(pairs: Seq<(Seq<char>, Seq<char>)>)
    ensures
        later_pairs_map(pairs).dom() == pair_keys(pairs).to_set(),
        later_pairs_map(pairs).dom().finite(),
        later_pairs_map(pairs).dom().len() == pair_keys(pairs).to_set().len(),
        (later_pairs_map(pairs).dom().len() == 0) <==> (pairs.len() == 0),
    decreases pairs.len(),
{
    if pairs.len() == 0 {
        assert(pair_keys(pairs).to_set() =~= Set::<Seq<char>>::empty());
        assert(later_pairs_map(pairs).dom() =~= Set::<Seq<char>>::empty());
    } else {
        let t = pairs.drop_last();
        law_manifest_inserts(t);
        assert(pair_keys(pairs) =~= pair_keys(t).push(pairs.last().0));
        assert(pair_keys(pairs).to_set() =~= pair_keys(t).to_set().insert(pairs.last().0)) by {
            assert forall|x: Seq<char>| pair_keys(pairs).to_set().contains(x) <==> pair_keys(t).to_set().insert(
                pairs.last().0,
            ).contains(x) by {
                if pair_keys(pairs).contains(x) {
                    let i = choose|i: int| 0 <= i < pair_keys(pairs).len() && pair_keys(pairs)[i] == x;
                    if i < t.len() {
                        assert(pair_keys(t)[i] == x);
                    }
                }
                if pair_keys(t).contains(x) {
                    let i = choose|i: int| 0 <= i < pair_keys(t).len() && pair_keys(t)[i] == x;
                    assert(pair_keys(pairs)[i] == x);
                }
                if x == pairs.last().0 {
                    assert(pair_keys(pairs)[pairs.len() - 1] == x);
                }
            }
        }
        assert(later_pairs_map(pairs).dom() =~= later_pairs_map(t).dom().insert(pairs.last().0));
        assert(later_pairs_map(pairs).dom().contains(pairs.last().0));
    }
}

/// The map of a list of pairs is finite.
proof fn lemma_pairs_map_finite(s: Seq<(String, String)>)
    ensures
        pairs_map(s).dom().finite(),
    decreases s.len(),
{
    if s.len() > 0 {
        lemma_pairs_map_finite(s.drop_last());
    }
}

/// What a list of pairs maps each of its keys to.
pub proof fn lemma_pairs_map(s: Seq<(String, String)>)
    requires
        keys_distinct(s),
    ensures
        forall|k: Seq<char>| #[trigger] pairs_map(s).contains_key(k) <==> exists|i: int| 0 <= i < s.len() && s[i].0@ == k,
        forall|i: int| 0 <= i < s.len() ==> #[trigger] pairs_map(s)[s[i].0@] == s[i].1@,
        pairs_map(s).dom().finite(),
        pairs_map(s).dom().len() == s.len(),
    decreases s.len(),
{
    if s.len() > 0 {
        let t = s.drop_last();
        assert(keys_distinct(t)) by {
            assert forall|i: int, j: int| 0 <= i < j < t.len() implies #[trigger] t[i].0@ != #[trigger] t[j].0@ by {
                assert(s[i].0@ != s[j].0@);
            }
        }
        lemma_pairs_map(t);
        let n = s.len() - 1;
        assert(!pairs_map(t).contains_key(s[n].0@)) by {
            if pairs_map(t).contains_key(s[n].0@) {
                let i = choose|i: int| 0 <= i < t.len() && t[i].0@ == s[n].0@;
                assert(s[i].0@ != s[n].0@);
            }
        }
        assert forall|k: Seq<char>| #[trigger] pairs_map(s).contains_key(k) <==> exists|i: int| 0 <= i < s.len() && s[i].0@ == k by {
            if pairs_map(s).contains_key(k) && k != s[n].0@ {
                let i = choose|i: int| 0 <= i < t.len() && t[i].0@ == k;
                assert(s[i].0@ == k);
            }
            if exists|i: int| 0 <= i < s.len() && s[i].0@ == k {
                let i = choose|i: int| 0 <= i < s.len() && s[i].0@ == k;
                if i < n {
                    assert(t[i].0@ == k);
                }
            }
        }
        assert forall|i: int| 0 <= i < s.len() implies #[trigger] pairs_map(s)[s[i].0@] == s[i].1@ by {
            if i < n {
                assert(t[i] == s[i]);
                assert(s[i].0@ != s[n].0@);
            }
        }
    }
}

impl AssetManifest {
    /// The pairs have distinct original paths.
    #[verifier::type_invariant]
    spec fn inv(self) -> bool {
        keys_distinct(self.entries@)
    }

    /// Create a new empty manifest.
    pub fn new() -> (r: Self)
        ensures
            r@ == Map::<Seq<char>, Seq<char>>::empty(),
            r@.dom().finite(),
    {
        AssetManifest { entries: Vec::new() }
    }

    /// Create an empty manifest with room for `cap` entries.
    pub fn with_capacity(cap: usize) -> (r: Self)
        ensures
            r@ == Map::<Seq<char>, Seq<char>>::empty(),
            r@.dom().finite(),
    {
        AssetManifest { entries: Vec::with_capacity(cap) }
    }

    /// The index of the entry for `original`, if any.
    fn position(&self, original: &str) -> (r: Option<usize>)
        ensures
            match r {
                Some(i) => i < self.entries@.len() && self.entries@[i as int].0@ == original@,
                None => forall|i: int| 0 <= i < self.entries@.len() ==> self.entries@[i].0@ != original@,
            },
    {
        let mut i: usize = 0;
        while i < self.entries.len()
            invariant
                i <= self.entries@.len(),
                forall|j: int| 0 <= j < i ==> self.entries@[j].0@ != original@,
            decreases self.entries@.len() - i,
        {
            if str_eq(self.entries[i].0.as_str(), original) {
                return Some(i);
            }
            i = i + 1;
        }
        None
    }

    /// Insert a mapping, replacing any earlier one for the same original
    /// path.
    pub fn insert(&mut self, original: String, hashed: String)
        ensures
            final(self)@ == old(self)@.insert(original@, hashed@),
            final(self)@.dom().finite(),
            final(self)@.dom().len() == old(self)@.dom().len() + (if old(self)@.contains_key(original@) {
                0nat
            } else {
                1nat
            }),
    {
        proof {
            use_type_invariant(&*self);
        }
        let ghost old_entries = self.entries@;
        let ghost ko = original@;
        let ghost vo = hashed@;
        let pos = self.position(original.as_str());
        let mut entries: Vec<(String, String)> = Vec::new();
        std::mem::swap(&mut entries, &mut self.entries);
        match pos {
            Some(i) => {
                let ghost k = original@;
                entries.set(i, (original, hashed));
                proof {
                    lemma_pairs_map(old_entries);
                    assert(keys_distinct(entries@)) by {
                        assert forall|a: int, b: int| 0 <= a < b < entries@.len() implies #[trigger] entries@[a].0@ != #[trigger] entries@[b].0@ by {
                            assert(old_entries[a].0@ != old_entries[b].0@);
                        }
                    }
                    lemma_pairs_map(entries@);
                    assert(pairs_map(entries@) =~= pairs_map(old_entries).insert(k, hashed@)) by {
                        assert forall|x: Seq<char>| #[trigger] pairs_map(entries@).contains_key(x) <==> pairs_map(old_entries).insert(k, hashed@).contains_key(x) by {
                            if pairs_map(old_entries).contains_key(x) {
                                let j = choose|j: int| 0 <= j < old_entries.len() && old_entries[j].0@ == x;
                                assert(entries@[j].0@ == x);
                            }
                            if pairs_map(entries@).contains_key(x) {
                                let j = choose|j: int| 0 <= j < entries@.len() && entries@[j].0@ == x;
                                assert(old_entries[j].0@ == x);
                            }
                            assert(entries@[i as int].0@ == k);
                        }
                        assert forall|x: Seq<char>| #[trigger] pairs_map(entries@).contains_key(x) implies pairs_map(entries@)[x] == pairs_map(old_entries).insert(k, hashed@)[x] by {
                            let j = choose|j: int| 0 <= j < entries@.len() && entries@[j].0@ == x;
                            assert(pairs_map(entries@)[entries@[j].0@] == entries@[j].1@);
                            if j != i {
                                assert(pairs_map(old_entries)[old_entries[j].0@] == old_entries[j].1@);
                            }
                        }
                    }
                }
            },
            None => {
                entries.push((original, hashed));
                proof {
                    assert(entries@.drop_last() =~= old_entries);
                }
            },
        }
        self.entries = entries;
        proof {
            lemma_pairs_map_finite(old_entries);
            law_manifest_len_insert(pairs_map(old_entries), ko, vo);
        }
    }

    /// Look up the hashed path for an original path; the original path
    /// comes back unchanged when the manifest does not know it.
    pub fn resolve<'a>(&'a self, original: &'a str) -> (r: &'a str)
        ensures
            r@ == resolved(self@, original@),
    {
        proof {
            use_type_invariant(self);
            lemma_pairs_map(self.entries@);
        }
        match self.position(original) {
            Some(i) => self.entries[i].1.as_str(),
            None => original,
        }
    }

    /// All (original, hashed) pairs, sorted by the byte length of the
    /// original path, longest first (equal lengths keep insertion order).
    ///
    /// Longest-match-first ordering prevents partial replacements during
    /// string rewriting.
    pub fn pairs_longest_first(&self) -> (r: Vec<(&str, &str)>)
        ensures
            is_pair_listing(self@, pairs_view(r@)),
            longest_first(pairs_view(r@)),
    {
        proof {
            use_type_invariant(self);
            lemma_pairs_map(self.entries@);
        }
        let mut pairs: Vec<(&str, &str)> = Vec::new();
        let mut i: usize = 0;
        while i < self.entries.len()
            invariant
                i <= self.entries@.len(),
                pairs_view(pairs@) == self.entries@.subrange(0, i as int).map_values(|e: (String, String)| (e.0@, e.1@)),
            decreases self.entries@.len() - i,
        {
            let ghost before = pairs_view(pairs@);
            let k: &str = self.entries[i].0.as_str();
            let h: &str = self.entries[i].1.as_str();
            pairs.push((k, h));
            assert(pairs_view(pairs@) =~= before.push((k@, h@)));
            i = i + 1;
            assert(pairs_view(pairs@) =~= self.entries@.subrange(0, i as int).map_values(|e: (String, String)| (e.0@, e.1@)));
        }
        let ghost listed = pairs_view(pairs@);
        proof {
            assert(self.entries@.subrange(0, self.entries@.len() as int) =~= self.entries@);
            assert(is_pair_listing(self@, listed)) by {
                assert forall|a: int, b: int| 0 <= a < b < listed.len() implies #[trigger] listed[a].0 != #[trigger] listed[b].0 by {}
                assert forall|k: Seq<char>| #[trigger] self@.contains_key(k) implies exists|a: int| 0 <= a < listed.len() && #[trigger] listed[a].0 == k by {
                    let a = choose|a: int| 0 <= a < self.entries@.len() && self.entries@[a].0@ == k;
                    assert(listed[a].0 == k);
                }
            }
        }
        sort_longest_first(&mut pairs);
        proof {
            lemma_permutation_keeps_listing(self@, listed, pairs_view(pairs@));
        }
        pairs
    }

    /// Whether the manifest is empty (no assets were hashed).
    pub fn is_empty(&self) -> (r: bool)
        ensures
            r == (self@.dom().len() == 0),
            self@.dom().finite(),
    {
        proof {
            use_type_invariant(self);
            lemma_pairs_map(self.entries@);
        }
        self.entries.len() == 0
    }

    /// Number of entries.
    pub fn len(&self) -> (r: usize)
        ensures
            r == self@.dom().len(),
            self@.dom().finite(),
    {
        proof {
            use_type_invariant(self);
            lemma_pairs_map(self.entries@);
        }
        self.entries.len()
    }
}

/// The views of a list of string pairs.
pub open spec fn pairs_view(s: Seq<(&str, &str)>) -> Seq<(Seq<char>, Seq<char>)> {
    s.map_values(|p: (&str, &str)| (p.0@, p.1@))
}

/// Every manifest holds finitely many paths, so its length is
/// meaningful.
pub proof fn law_manifest_finite(m: AssetManifest)
    ensures
        m@.dom().finite(),
{
    lemma_pairs_map_finite(m.entries@);
}

/// `s` lists the entries of `m`: each exactly once, in some order.
pub open spec fn is_pair_listing(m: Map<Seq<char>, Seq<char>>, s: Seq<(Seq<char>, Seq<char>)>) -> bool {
    &&& forall|i: int| 0 <= i < s.len() ==> #[trigger] m.contains_key(s[i].0) && m[s[i].0] == s[i].1
    &&& forall|i: int, j: int| 0 <= i < j < s.len() ==> #[trigger] s[i].0 != #[trigger] s[j].0
    &&& forall|k: Seq<char>| #[trigger] m.contains_key(k) ==> exists|i: int| 0 <= i < s.len() && #[trigger] s[i].0 == k
}

/// The length of a string in UTF-8 bytes, as `str::len` returns it.
pub open spec fn byte_len(s: Seq<char>) -> usize {
    vstd::utf8::encode_utf8(s).len() as usize
}

/// Pairs are ordered by the byte length of their first component, longest
/// first.
pub open spec fn longest_first(s: Seq<(Seq<char>, Seq<char>)>) -> bool {
    forall|i: int, j: int| 0 <= i < j < s.len() ==> byte_len(#[trigger] s[i].0) >= byte_len(#[trigger] s[j].0)
}

/// A permutation of a listing is a listing.
pub proof fn lemma_permutation_keeps_listing(
    m: Map<Seq<char>, Seq<char>>,
    a: Seq<(Seq<char>, Seq<char>)>,
    b: Seq<(Seq<char>, Seq<char>)>,
)
    requires
        is_pair_listing(m, a),
        a.to_multiset() =~= b.to_multiset(),
    ensures
        is_pair_listing(m, b),
{
    assert(a.len() == b.len()) by {
        a.to_multiset_ensures();
        b.to_multiset_ensures();
    }
    a.to_multiset_ensures();
    b.to_multiset_ensures();
    assert forall|i: int| 0 <= i < b.len() implies #[trigger] m.contains_key(b[i].0) && m[b[i].0] == b[i].1 by {
        assert(b.contains(b[i]));
        assert(b.to_multiset().count(b[i]) > 0);
        assert(a.to_multiset().count(b[i]) == b.to_multiset().count(b[i]));
        assert(a.contains(b[i]));
    }
    assert forall|k: Seq<char>| #[trigger] m.contains_key(k) implies exists|i: int| 0 <= i < b.len() && #[trigger] b[i].0 == k by {
        let i = choose|i: int| 0 <= i < a.len() && #[trigger] a[i].0 == k;
        assert(a.contains(a[i]));
        assert(a.to_multiset().count(a[i]) > 0);
        assert(a.to_multiset().count(a[i]) == b.to_multiset().count(a[i]));
        assert(b.contains(a[i]));
    }
    assert forall|i: int, j: int| 0 <= i < j < b.len() implies #[trigger] b[i].0 != #[trigger] b[j].0 by {
        if b[i].0 == b[j].0 {
            assert(b.contains(b[i]));
            assert(b.contains(b[j]));
            assert(a.to_multiset().count(b[i]) == b.to_multiset().count(b[i]));
            assert(a.to_multiset().count(b[j]) == b.to_multiset().count(b[j]));
            assert(a.contains(b[i]));
            assert(a.contains(b[j]));
            let x = choose|x: int| 0 <= x < a.len() && a[x] == b[i];
            let y = choose|y: int| 0 <= y < a.len() && a[y] == b[j];
            if x == y {
                assert(b[i] == b[j]);
                assert(b.to_multiset().count(b[i]) >= 2) by {
                    lemma_count_two(b, i, j);
                }
                assert(a.to_multiset().count(a[x]) <= 1) by {
                    lemma_count_distinct_first(a, x);
                }
            }
        }
    }
}

/// Two positions holding the same value count twice.
proof fn lemma_count_two<T>(s: Seq<T>, i: int, j: int)
    requires
        0 <= i < j < s.len(),
        s[i] == s[j],
    ensures
        s.to_multiset().count(s[i]) >= 2,
    decreases s.len(),
{
    broadcast use vstd::seq_lib::group_seq_properties;
    let t = s.drop_last();
    assert(s =~= t.push(s.last()));
    t.to_multiset_ensures();
    if j < s.len() - 1 {
        lemma_count_two(t, i, j);
    } else {
        assert(t.contains(s[i])) by {
            assert(t[i] == s[i]);
        }
        assert(t.to_multiset().count(s[i]) >= 1);
    }
}

/// In a list whose first components are distinct, each element occurs
/// once.
proof fn lemma_count_distinct_first(a: Seq<(Seq<char>, Seq<char>)>, x: int)
    requires
        0 <= x < a.len(),
        forall|i: int, j: int| 0 <= i < j < a.len() ==> #[trigger] a[i].0 != #[trigger] a[j].0,
    ensures
        a.to_multiset().count(a[x]) <= 1,
    decreases a.len(),
{
    broadcast use vstd::seq_lib::group_seq_properties;
    let t = a.drop_last();
    assert(a =~= t.push(a.last()));
    t.to_multiset_ensures();
    let n = a.len() - 1;
    if x < n {
        lemma_count_distinct_first(t, x);
        assert(a[n] != a[x]) by {
            assert(a[x].0 != a[n].0);
        }
    } else {
        assert(!t.contains(a[x])) by {
            if t.contains(a[x]) {
                let y = choose|y: int| 0 <= y < t.len() && t[y] == a[x];
                assert(a[y].0 != a[n].0);
            }
        }
    }
}

/// Sort pairs by the byte length of the first component, longest first,
/// keeping the order of equal lengths (insertion sort).
fn sort_longest_first(v: &mut Vec<(&str, &str)>)
    ensures
        pairs_view(final(v)@).to_multiset() =~= pairs_view(old(v)@).to_multiset(),
        longest_first(pairs_view(final(v)@)),
{
    let ghost orig = pairs_view(v@);
    let mut i: usize = 1;
    if v.len() == 0 {
        return;
    }
    while i < v.len()
        invariant
            1 <= i <= v@.len(),
            v@.len() == orig.len(),
            pairs_view(v@).to_multiset() =~= orig.to_multiset(),
            forall|a: int, b: int| 0 <= a < b < i ==> byte_len(#[trigger] pairs_view(v@)[a].0) >= byte_len(#[trigger] pairs_view(v@)[b].0),
        decreases v@.len() - i,
    {
        let mut j = i;
        while j > 0 && v[j - 1].0.len() < v[j].0.len()
            invariant
                0 <= j <= i < v@.len(),
                v@.len() == orig.len(),
                pairs_view(v@).to_multiset() =~= orig.to_multiset(),
                forall|a: int, b: int| 0 <= a < b <= i && a != j && b != j ==> byte_len(#[trigger] pairs_view(v@)[a].0) >= byte_len(#[trigger] pairs_view(v@)[b].0),
                forall|b: int| j < b <= i ==> byte_len(pairs_view(v@)[j as int].0) > byte_len(#[trigger] pairs_view(v@)[b].0),
            decreases j,
        {
            let ghost before = pairs_view(v@);
            let a = v[j - 1];
            let b = v[j];
            assert(byte_len(before[j - 1].0) < byte_len(before[j as int].0));
            v.set(j - 1, b);
            v.set(j, a);
            proof {
                let after = pairs_view(v@);
                assert(after =~= before.update(j - 1, before[j as int]).update(j as int, before[j - 1]));
                lemma_swap_multiset(before, j - 1, j as int);
                assert forall|x: int, y: int| 0 <= x < y <= i && x != j - 1 && y != j - 1
                    implies byte_len(#[trigger] after[x].0) >= byte_len(#[trigger] after[y].0) by {
                    if x == j {
                        assert(after[x] == before[j - 1]);
                        assert(after[y] == before[y]);
                        assert(byte_len(before[j - 1].0) >= byte_len(before[y].0));
                    } else if y == j {
                        assert(after[y] == before[j - 1]);
                        assert(after[x] == before[x]);
                        assert(byte_len(before[x].0) >= byte_len(before[j - 1].0));
                    } else {
                        assert(after[x] == before[x]);
                        assert(after[y] == before[y]);
                    }
                }
                assert forall|y: int| j - 1 < y <= i implies byte_len(after[j - 1].0) > byte_len(#[trigger] after[y].0) by {
                    assert(after[j - 1] == before[j as int]);
                    if y == j {
                        assert(after[y] == before[j - 1]);
                    } else {
                        assert(after[y] == before[y]);
                    }
                }
            }
            j = j - 1;
        }
        proof {
            let s = pairs_view(v@);
            assert(j > 0 ==> byte_len(s[j - 1].0) >= byte_len(s[j as int].0));
            assert forall|x: int, y: int| 0 <= x < y <= i implies byte_len(#[trigger] s[x].0) >= byte_len(#[trigger] s[y].0) by {
                if y == j {
                    if x < j - 1 {
                        assert(byte_len(s[x].0) >= byte_len(s[j - 1].0));
                    }
                } else if x == j {
                } else {
                }
            }
        }
        i = i + 1;
    }
}

/// Swapping two positions keeps the multiset of a sequence.
proof fn lemma_swap_multiset<T>(s: Seq<T>, i: int, j: int)
    requires
        0 <= i < j < s.len(),
    ensures
        s.update(i, s[j]).update(j, s[i]).to_multiset() =~= s.to_multiset(),
{
    let t = s.update(i, s[j]);
    broadcast use vstd::seq_lib::group_seq_properties;
    s.to_multiset_ensures();
    t.to_multiset_ensures();
    t.update(j, s[i]).to_multiset_ensures();
    vstd::seq_lib::to_multiset_update(s, i, s[j]);
    vstd::seq_lib::to_multiset_update(t, j, s[i]);
}

// ---------------------------------------------------------------------------
// Reference rewriting
// ---------------------------------------------------------------------------

/// The content after applying the pairs `pairs` in order, each replacing
/// every occurrence of its original path when there is one, and whether
/// any pair applied.
pub open spec fn rewritten(content: Seq<char>, pairs: Seq<(Seq<char>, Seq<char>)>) -> (Seq<char>, bool)
    decreases pairs.len(),
{
    if pairs.len() == 0 {
        (content, false)
    } else {
        let (r, changed) = rewritten(content, pairs.drop_last());
        let (from, to) = pairs.last();
        if contains_seq(r, from) {
            (replace_all(r, from, to), true)
        } else {
            (r, changed)
        }
    }
}

/// The rewritten content, or `None` when no pair applied.
pub open spec fn rewrite_result(content: Seq<char>, pairs: Seq<(Seq<char>, Seq<char>)>) -> Option<Seq<char>> {
    let (r, changed) = rewritten(content, pairs);
    if changed {
        Some(r)
    } else {
        None
    }
}

/// Rewrite asset references in one file's content: every original path
/// is replaced by its hashed path, pairs applied in the given
/// (longest-first) order. `None` when nothing was replaced, so the caller
/// can skip the write.
pub fn rewrite_file_content(content: &str, pairs: &[(&str, &str)]) -> (r: Option<String>)
    ensures
        crate::text::opt_view(r) == rewrite_result(content@, pairs_view(pairs@)),
{
    let ghost ps = pairs_view(pairs@);
    let mut result = crate::text::owned(content);
    let mut changed = false;
    let mut i: usize = 0;
    while i < pairs.len()
        invariant
            i <= pairs@.len(),
            ps == pairs_view(pairs@),
            (result@, changed) == rewritten(content@, ps.subrange(0, i as int)),
        decreases pairs@.len() - i,
    {
        let (original, hashed) = pairs[i];
        assert(ps.subrange(0, i + 1).drop_last() =~= ps.subrange(0, i as int));
        assert(ps.subrange(0, i + 1).last() == (original@, hashed@));
        if str_contains(result.as_str(), original) {
            result = str_replace(result.as_str(), original, hashed);
            changed = true;
        }
        i = i + 1;
    }
    assert(ps.subrange(0, pairs@.len() as int) =~= ps);
    if changed {
        Some(result)
    } else {
        None
    }
}

/// A rewrite with one pair is idempotent exactly when its output holds no
/// further occurrence of the original path: then a second pass changes
/// nothing.
pub proof fn law_rewrite_once(content: Seq<char>, from: Seq<char>, to: Seq<char>)
    requires
        rewrite_result(content, seq![(from, to)]) is Some,
    ensures
        rewrite_result(rewrite_result(content, seq![(from, to)])->0, seq![(from, to)]) is None
            <==> !contains_seq(rewrite_result(content, seq![(from, to)])->0, from),
{
    let ps = seq![(from, to)];
    assert(ps.drop_last() =~= Seq::<(Seq<char>, Seq<char>)>::empty());
    assert(ps.last() == (from, to));
    reveal_with_fuel(rewritten, 2);
}

/// The replacement pairs of a manifest and an optional second manifest of
/// generated files, longest original path first.
pub fn merged_pairs<'a>(manifest: &'a AssetManifest, additional: Option<&'a AssetManifest>) -> (r: Vec<(&'a str, &'a str)>)
    ensures
        longest_first(pairs_view(r@)),
        match additional {
            None => is_pair_listing(manifest@, pairs_view(r@)),
            Some(add) => exists|a: Seq<(Seq<char>, Seq<char>)>, b: Seq<(Seq<char>, Seq<char>)>|
                is_pair_listing(manifest@, a) && is_pair_listing(add@, b)
                && #[trigger] (a + b).to_multiset() =~= pairs_view(r@).to_multiset(),
        },
{
    let mut all = manifest.pairs_longest_first();
    match additional {
        None => all,
        Some(add) => {
            let ghost a = pairs_view(all@);
            let more = add.pairs_longest_first();
            let ghost b = pairs_view(more@);
            let mut i: usize = 0;
            while i < more.len()
                invariant
                    i <= more@.len(),
                    b == pairs_view(more@),
                    pairs_view(all@) == a + b.subrange(0, i as int),
                decreases more@.len() - i,
            {
                let ghost before = pairs_view(all@);
                let p = more[i];
                all.push(p);
                assert(pairs_view(all@) =~= before.push((p.0@, p.1@)));
                assert(b[i as int] == (p.0@, p.1@));
                i = i + 1;
                assert(pairs_view(all@) =~= a + b.subrange(0, i as int));
            }
            assert(b.subrange(0, b.len() as int) =~= b);
            sort_longest_first(&mut all);
            all
        },
    }
}

// ---------------------------------------------------------------------------
// Hashing the files of a site
// ---------------------------------------------------------------------------

/// The byte contents of files.
pub open spec fn bytes_files_view(files: Seq<(String, Option<Vec<u8>>)>) -> Seq<(Seq<char>, Option<Seq<u8>>)> {
    files.map_values(
        |f: (String, Option<Vec<u8>>)|
            (
                f.0@,
                match f.1 {
                    Some(d) => Some(d@),
                    None => None,
                },
            ),
    )
}

/// The (original, hashed) URL paths of the files hashed, in order: each
/// file that is not excluded and has content.
pub open spec fn hashed_entries(files: Seq<(Seq<char>, Option<Seq<u8>>)>, patterns: Seq<Seq<char>>) -> Seq<(Seq<char>, Seq<char>)>
    decreases files.len(),
{
    if files.len() == 0 {
        seq![]
    } else {
        let prev = hashed_entries(files.drop_last(), patterns);
        let (rel, data) = files.last();
        if excluded_by(patterns, rel, patterns.len() as int) {
            prev
        } else {
            match data {
                Some(d) => prev.push(hashed_url_pair(rel, content_hash_of(d))),
                None => prev,
            }
        }
    }
}

/// The map of a list of pairs, later pairs replacing earlier ones.
pub open spec fn later_pairs_map(pairs: Seq<(Seq<char>, Seq<char>)>) -> Map<Seq<char>, Seq<char>>
    decreases pairs.len(),
{
    if pairs.len() == 0 {
        Map::empty()
    } else {
        later_pairs_map(pairs.drop_last()).insert(pairs.last().0, pairs.last().1)
    }
}

/// Hash files: each file (path relative to its directory, `/` separated,
/// and its bytes, `None` when it is missing) that no pattern excludes is
/// hashed; the manifest of (original, hashed) URL paths and the list of
/// them, in order.
fn hash_files(files: &[(String, Option<Vec<u8>>)], exclude: &[String]) -> (r: (AssetManifest, Vec<(String, String)>))
    ensures
        attrs_view_pairs(r.1@) == hashed_entries(bytes_files_view(files@), crate::text::strs_view(exclude@)),
        r.0@ == later_pairs_map(attrs_view_pairs(r.1@)),
{
    let ghost fv = bytes_files_view(files@);
    let ghost ps = crate::text::strs_view(exclude@);
    let mut manifest = AssetManifest::new();
    let mut list: Vec<(String, String)> = Vec::new();
    let mut i: usize = 0;
    while i < files.len()
        invariant
            i <= files@.len(),
            fv == bytes_files_view(files@),
            ps == crate::text::strs_view(exclude@),
            attrs_view_pairs(list@) == hashed_entries(fv.subrange(0, i as int), ps),
            manifest@ == later_pairs_map(attrs_view_pairs(list@)),
        decreases files@.len() - i,
    {
        assert(fv.subrange(0, i + 1).drop_last() =~= fv.subrange(0, i as int));
        assert(fv.subrange(0, i + 1).last() == fv[i as int]);
        let rel = files[i].0.as_str();
        if !is_excluded(rel, exclude) {
            match &files[i].1 {
                Some(data) => {
                    let hash = content_hash(data.as_slice());
                    let (original, hashed) = hashed_url_paths(rel, hash.as_str());
                    let ghost before = attrs_view_pairs(list@);
                    list.push((original.clone(), hashed.clone()));
                    assert(attrs_view_pairs(list@) =~= before.push((original@, hashed@)));
                    assert(attrs_view_pairs(list@).drop_last() =~= before);
                    manifest.insert(original, hashed);
                },
                None => {},
            }
        }
        i = i + 1;
    }
    assert(fv.subrange(0, files@.len() as int) =~= fv);
    (manifest, list)
}

/// The views of string pairs.
pub open spec fn attrs_view_pairs(v: Seq<(String, String)>) -> Seq<(Seq<char>, Seq<char>)> {
    v.map_values(|p: (String, String)| (p.0@, p.1@))
}

/// Build the asset manifest of the static files: each file of `static/`
/// (path relative to it, with the bytes of its copy in `dist/`, `None`
/// when that is missing) not excluded by a pattern gets a hashed name in
/// its directory. Returns the manifest and the (original, hashed) URL
/// paths in order, by which the copies in `dist/` are renamed.
pub fn build_manifest(static_files: &[(String, Option<Vec<u8>>)], config: &ContentHashConfig) -> (r: (
    AssetManifest,
    Vec<(String, String)>,
))
    ensures
        attrs_view_pairs(r.1@) == hashed_entries(bytes_files_view(static_files@), crate::text::strs_view(config.exclude@)),
        r.0@ == later_pairs_map(attrs_view_pairs(r.1@)),
{
    hash_files(static_files, config.exclude.as_slice())
}

/// Hash generated files (e.g. the bundles; path relative to `dist/` and
/// bytes, `None` when missing): the manifest of their hashed names and
/// the (original, hashed) URL paths in order.
pub fn hash_additional_files(files: &[(String, Option<Vec<u8>>)]) -> (r: (AssetManifest, Vec<(String, String)>))
    ensures
        attrs_view_pairs(r.1@) == hashed_entries(bytes_files_view(files@), seq![]),
        r.0@ == later_pairs_map(attrs_view_pairs(r.1@)),
{
    let none: Vec<String> = Vec::new();
    assert(crate::text::strs_view(none@) =~= Seq::<Seq<char>>::empty());
    hash_files(files, none.as_slice())
}

/// The files whose references are rewritten: `.html`, `.css` and `.js`.
pub open spec fn rewritable(path: Seq<char>) -> bool {
    let e = crate::build::hints::preload::extension_of(path);
    e == Some("html"@) || e == Some("css"@) || e == Some("js"@)
}

/// The text files rewritten for the manifests, in order: each `.html`,
/// `.css` or `.js` file whose content changes, with its new content.
pub open spec fn rewritten_files(files: Seq<(Seq<char>, Seq<char>)>, pairs: Seq<(Seq<char>, Seq<char>)>) -> Seq<(Seq<char>, Seq<char>)>
    decreases files.len(),
{
    if files.len() == 0 {
        seq![]
    } else {
        let prev = rewritten_files(files.drop_last(), pairs);
        let (p, c) = files.last();
        if !rewritable(p) {
            prev
        } else {
            match rewrite_result(c, pairs) {
                Some(t) => prev.push((p, t)),
                None => prev,
            }
        }
    }
}

/// Rewrite the references to hashed assets in the text files of `dist/`
/// (path and content): every original path of the manifests is replaced
/// by its hashed path, longest first. Returns the files that changed,
/// with their new content; none when both manifests are empty.
pub fn rewrite_references(
    files: &[(String, String)],
    manifest: &AssetManifest,
    additional: Option<&AssetManifest>,
) -> (r: Vec<(String, String)>)
    ensures
        (manifest@.dom().len() == 0 && match additional {
            Some(a) => a@.dom().len() == 0,
            None => true,
        }) ==> r@.len() == 0,
        !(manifest@.dom().len() == 0 && match additional {
            Some(a) => a@.dom().len() == 0,
            None => true,
        }) ==> exists|pairs: Seq<(Seq<char>, Seq<char>)>|
            longest_first(pairs) && attrs_view_pairs(r@) == rewritten_files(attrs_view_pairs(files@), pairs) && match additional {
                None => is_pair_listing(manifest@, pairs),
                Some(add) => exists|a: Seq<(Seq<char>, Seq<char>)>, b: Seq<(Seq<char>, Seq<char>)>|
                    is_pair_listing(manifest@, a) && is_pair_listing(add@, b) && #[trigger] (a + b).to_multiset()
                        =~= pairs.to_multiset(),
            },
{
    let add_empty = match additional {
        Some(a) => a.is_empty(),
        None => true,
    };
    if manifest.is_empty() && add_empty {
        return Vec::new();
    }
    let pairs = merged_pairs(manifest, additional);
    let ghost pv = pairs_view(pairs@);
    let ghost fv = attrs_view_pairs(files@);
    let mut out: Vec<(String, String)> = Vec::new();
    let mut i: usize = 0;
    while i < files.len()
        invariant
            i <= files@.len(),
            fv == attrs_view_pairs(files@),
            pv == pairs_view(pairs@),
            attrs_view_pairs(out@) == rewritten_files(fv.subrange(0, i as int), pv),
        decreases files@.len() - i,
    {
        assert(fv.subrange(0, i + 1).drop_last() =~= fv.subrange(0, i as int));
        assert(fv.subrange(0, i + 1).last() == fv[i as int]);
        let path = files[i].0.as_str();
        proof {
            reveal_strlit("html");
            reveal_strlit("css");
            reveal_strlit("js");
        }
        let ok = match crate::build::hints::preload::path_extension(path) {
            Some(e) => crate::text::str_eq(e.as_str(), "html") || crate::text::str_eq(e.as_str(), "css")
                || crate::text::str_eq(e.as_str(), "js"),
            None => false,
        };
        if ok {
            match rewrite_file_content(files[i].1.as_str(), pairs.as_slice()) {
                Some(t) => {
                    let ghost before = attrs_view_pairs(out@);
                    out.push((files[i].0.clone(), t));
                    assert(attrs_view_pairs(out@) =~= before.push((fv[i as int].0, out@.last().1@)));
                },
                None => {},
            }
        }
        i = i + 1;
    }
    assert(fv.subrange(0, files@.len() as int) =~= fv);
    out
}

} // verus!

