//! The cache store: key/value reads and writes with an explicit
//! time-to-live, plus the media-entry helpers built on top of it.
//!
//! This handle owns the in-process backend and is verified against it; a
//! networked backend with the same external semantics is wired up outside
//! the library.

use vstd::prelude::*;

use crate::ram_cache::{expiry_at, RamCache};

verus! {

/// Failures a cache lookup can report.
#[derive(Clone, Copy, Debug, PartialEq, Eq, Structural)]
pub enum CacheError {
    /// The key is absent.
    NotFound,
}

/// A cache store handle over the in-process backend.
pub struct Cache {
    pub ram: RamCache,
}

impl Cache {
    /// Text entries, as a map from key to `(text, expiry)`.
    pub open spec fn texts(&self) -> Map<Seq<char>, (Seq<char>, nat)> {
        self.ram.texts_map()
    }

    /// Byte entries, as a map from key to `(bytes, expiry)`.
    pub open spec fn blobs(&self) -> Map<Seq<char>, (Seq<u8>, nat)> {
        self.ram.images_map()
    }

    pub open spec fn wf(&self) -> bool {
        self.ram.wf()
    }

    pub fn new() -> (r: Self)
        ensures
            r.wf(),
            r.texts() =~= Map::<Seq<char>, (Seq<char>, nat)>::empty(),
            r.blobs() =~= Map::<Seq<char>, (Seq<u8>, nat)>::empty(),
    {
        Cache { ram: RamCache::new() }
    }

    /// Read a text entry.  `Err(NotFound)` exactly when the key is absent.
    pub fn get_str(&self, key: &str) -> (r: Result<String, CacheError>)
        requires
            self.wf(),
        ensures
            match r {
                Ok(v) => self.texts().contains_key(key@) && v@ == self.texts()[key@].0,
                Err(e) => e == CacheError::NotFound && !self.texts().contains_key(key@),
            },
    {
        match self.ram.get_str(key) {
            Some(v) => Ok(v.clone()),
            None => Err(CacheError::NotFound),
        }
    }

    /// Read a byte entry.  `Err(NotFound)` exactly when the key is absent.
    pub fn get_bytes(&self, key: &str) -> (r: Result<Vec<u8>, CacheError>)
        requires
            self.wf(),
        ensures
            match r {
                Ok(v) => self.blobs().contains_key(key@) && v@ == self.blobs()[key@].0,
                Err(e) => e == CacheError::NotFound && !self.blobs().contains_key(key@),
            },
    {
        match self.ram.get_image(key) {
            Some(v) => Ok(crate::ram_cache::copy_bytes(v)),
            None => Err(CacheError::NotFound),
        }
    }

    /// Write a text entry that expires `expiration` seconds after `now`.
    pub fn set_str(&mut self, key: &str, value: &str, expiration: usize, now: usize) -> (r: Result<
        (),
        CacheError,
    >)
        requires
            old(self).wf(),
        ensures
            r is Ok,
            final(self).wf(),
            final(self).texts() =~= old(self).texts().insert(
                key@,
                (value@, expiry_at(now as nat, expiration as nat)),
            ),
            final(self).blobs() == old(self).blobs(),
    {
        self.ram.set_str(key, value.to_owned(), expiration, now);
        Ok(())
    }

    /// Write a byte entry that expires `expiration` seconds after `now`.
    pub fn set_bytes(&mut self, key: &str, value: Vec<u8>, expiration: usize, now: usize) -> (r:
        Result<(), CacheError>)
        requires
            old(self).wf(),
        ensures
            r is Ok,
            final(self).wf(),
            final(self).blobs() =~= old(self).blobs().insert(
                key@,
                (value@, expiry_at(now as nat, expiration as nat)),
            ),
            final(self).texts() == old(self).texts(),
    {
        self.ram.set_image(key, &value, expiration, now);
        Ok(())
    }
}

/// Whether a character survives file-name normalization unchanged.
pub open spec fn keeps_char(c: char) -> bool {
    (48 <= c as int && c as int <= 57) || (65 <= c as int && c as int <= 90) || (97 <= c as int
        && c as int <= 122) || c as int == 46
}

/// Normalized form of one character.
pub open spec fn norm_char(c: char) -> char {
    if keeps_char(c) {
        c
    } else {
        '_'
    }
}

/// Normalized form of a name: ASCII letters, digits and `.` survive,
/// everything else becomes `_`.
pub open spec fn normalize_spec(s: Seq<char>) -> Seq<char> {
    s.map_values(|c: char| norm_char(c))
}

/// Replace every character that is not ASCII-alphanumeric and not `.`
/// with `_`, keeping the string's length.
pub fn normalize_file_name(url: &str) -> (r: String)
    ensures
        r@ == normalize_spec(url@),
        r@.len() == url@.len(),
{
    let n: usize = url.unicode_len();
    let mut out = String::new();
    let mut i: usize = 0;
    while i < n
        invariant
            0 <= i <= n == url@.len(),
            out@ == normalize_spec(url@.subrange(0, i as int)),
        decreases n - i,
    {
        let c: char = url.get_char(i);
        let v: u32 = c as u32;
        if (48 <= v && v <= 57) || (65 <= v && v <= 90) || (97 <= v && v <= 122) || v == 46 {
            out.append(url.substring_char(i, i + 1));
            proof {
                assert(url@.subrange(i as int, i + 1) =~= seq![url@[i as int]]);
            }
        } else {
            out.append("_");
            proof {
                reveal_strlit("_");
                assert("_"@ =~= seq!['_']);
            }
        }
        proof {
            assert(normalize_spec(url@.subrange(0, i + 1)) =~= normalize_spec(
                url@.subrange(0, i as int),
            ).push(norm_char(url@[i as int])));
        }
        i = i + 1;
    }
    proof {
        assert(url@.subrange(0, n as int) =~= url@);
    }
    out
}

/// Cache key of a media entry stored under `file_name`.
pub open spec fn media_key(file_name: Seq<char>) -> Seq<char> {
    "media_media:"@ + file_name
}

/// The content type mime_guess derives from a file name.  The result is a
/// function of the name alone.
pub uninterp spec fn mime_of(name: Seq<char>) -> Seq<char>;

/// Relies on mime_guess::from_path / first_or_octet_stream: the guess
/// depends only on the path given, and some type is always produced.
#[verifier::external_body]
fn mime_for_name(name: &str) -> (r: String)
    ensures
        r@ == mime_of(name@),
{
    mime_guess::from_path(name).first_or_octet_stream().to_string()
}

/// Store encoded media bytes under the media key for `file_name`.
pub fn set_media_cache(
    file_name: &str,
    content: Vec<u8>,
    cache: &mut Cache,
    ttl: usize,
    now: usize,
)
    requires
        old(cache).wf(),
    ensures
        final(cache).wf(),
        final(cache).blobs() =~= old(cache).blobs().insert(
            media_key(file_name@),
            (content@, expiry_at(now as nat, ttl as nat)),
        ),
        final(cache).texts() == old(cache).texts(),
{
    let mut key = String::from_str("media_media:");
    key.append(file_name);
    let r = cache.set_bytes(key.as_str(), content, ttl, now);
    proof {
        assert(key@ == media_key(file_name@));
    }
}

/// Read a media entry back: the stored bytes plus the content type the
/// file name implies.  An absent or empty entry reads as a miss.
pub fn get_media_cache(file_name: &str, cache: &Cache) -> (r: Option<(Vec<u8>, String)>)
    requires
        cache.wf(),
    ensures
        match r {
            Some(p) => cache.blobs().contains_key(media_key(file_name@)) && p.0@ == cache.blobs()[
                media_key(file_name@)].0 && p.0@.len() > 0 && p.1@ == mime_of(file_name@),
            None => !cache.blobs().contains_key(media_key(file_name@)) || cache.blobs()[media_key(
                file_name@,
            )].0.len() == 0,
        },
{
    let mut key = String::from_str("media_media:");
    key.append(file_name);
    match cache.get_bytes(key.as_str()) {
        Ok(content) => {
            if content.len() == 0 {
                None
            } else {
                let mime_type = mime_for_name(file_name);
                Some((content, mime_type))
            }
        },
        Err(_) => None,
    }
}

} // verus!
