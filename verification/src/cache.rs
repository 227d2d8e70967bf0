//! Names of cached audio.
use vstd::prelude::*;

use sha2::Digest;

use crate::text::{decimal, digit, format_decimal, lemma_decimal_digits, lemma_decimal_injective};

verus! {

/// Where cached audio is kept.
#[derive(Debug)]
pub struct CacheConfig {
    pub cache_dir: String,
}

impl Default for CacheConfig {
    fn default() -> (r: Self)
        ensures
            r.cache_dir@ == "/tmp/mediacache"@,
    {
        CacheConfig { cache_dir: "/tmp/mediacache".to_owned() }
    }
}

impl CacheConfig {
    pub fn set_cache_dir(&mut self, path: &str)
        ensures
            final(self).cache_dir@ == path@,
    {
        self.cache_dir = path.to_owned();
    }

    pub fn get_cache_dir(&self) -> (r: &str)
        ensures
            r@ == self.cache_dir@,
    {
        self.cache_dir.as_str()
    }
}

/// The SHA-256 digest of a text in UTF-8, as `sha2::Sha256` computes it.
pub uninterp spec fn sha256_digest(text: Seq<char>) -> Seq<u8>;

/// `sha2::Sha256` fed with the bytes of a text: 32 bytes, a function of the text.
#[verifier::external_body]
fn sha256(text: &str) -> (r: Vec<u8>)
    ensures
        r@ == sha256_digest(text@),
        r@.len() == 32,
{
    let mut hasher = sha2::Sha256::new();
    hasher.update(text.as_bytes());
    hasher.finalize().to_vec()
}

/// A hexadecimal digit, in lower case.
pub open spec fn hex_digit(n: nat) -> char {
    if n < 10 {
        digit(n)
    } else if n == 10 {
        'a'
    } else if n == 11 {
        'b'
    } else if n == 12 {
        'c'
    } else if n == 13 {
        'd'
    } else if n == 14 {
        'e'
    } else {
        'f'
    }
}

/// Bytes in hexadecimal notation, two digits each.
pub open spec fn hex_text(data: Seq<u8>) -> Seq<char> {
    Seq::new(
        2 * data.len(),
        |i: int|
            hex_digit(
                (if i % 2 == 0 {
                    data[i / 2] / 16
                } else {
                    data[i / 2] % 16
                }) as nat,
            ),
    )
}

/// `hex::encode`: two digits in lower case for each byte, the more significant first.
#[verifier::external_body]
fn hex_encode(data: &Vec<u8>) -> (r: String)
    requires
        2 * data@.len() <= isize::MAX,
    ensures
        r@ == hex_text(data@),
{
    hex::encode(data)
}

/// The name of cached speech: the digest of what is said, the sample rate, the speaker if there
/// is one, and the speed, joined by underscores.
pub open spec fn key_text(
    digest: Seq<u8>,
    sample_rate: u32,
    speaker: Option<Seq<char>>,
    speed: Option<Seq<char>>,
) -> Seq<char> {
    let pace = match speed {
        Some(s) => s,
        None => seq!['1'],
    };
    hex_text(digest) + seq!['_'] + decimal(sample_rate as nat) + (match speaker {
        Some(s) => seq!['_'] + s,
        None => Seq::empty(),
    }) + seq!['_'] + pace
}

pub open spec fn text_of(s: Option<&String>) -> Option<Seq<char>> {
    match s {
        Some(s) => Some(s@),
        None => None,
    }
}

/// The name of cached speech of a digest.
pub fn cache_key(
    digest: &Vec<u8>,
    sample_rate: u32,
    speaker: Option<&String>,
    speed: Option<&String>,
) -> (r: String)
    requires
        2 * digest@.len() <= isize::MAX,
    ensures
        r@ == key_text(digest@, sample_rate, text_of(speaker), text_of(speed)),
{
    proof {
        reveal_strlit("_");
        reveal_strlit("1");
    }
    let mut key = hex_encode(digest);
    key.append("_");
    let rate = format_decimal(sample_rate as u64);
    key.append(rate.as_str());
    if let Some(s) = speaker {
        key.append("_");
        key.append(s.as_str());
    }
    key.append("_");
    match speed {
        Some(s) => key.append(s.as_str()),
        None => key.append("1"),
    }
    assert(key@ =~= key_text(digest@, sample_rate, text_of(speaker), text_of(speed)));
    key
}

/// The name of cached speech. The speed is given as it is written.
pub fn generate_cache_key(
    input: &str,
    sample_rate: u32,
    speaker: Option<&String>,
    speed: Option<&String>,
) -> (r: String)
    ensures
        r@ == key_text(sha256_digest(input@), sample_rate, text_of(speaker), text_of(speed)),
{
    let digest = sha256(input);
    cache_key(&digest, sample_rate, speaker, speed)
}

// Where it lies. Paths are those of systems that separate names by a slash.

/// A path below a directory; one that begins at the root replaces it.
pub open spec fn joined(dir: Seq<char>, path: Seq<char>) -> Seq<char> {
    if path.len() > 0 && path[0] == '/' {
        path
    } else if dir.len() == 0 || dir.last() == '/' {
        dir + path
    } else {
        dir + seq!['/'] + path
    }
}

/// How much is left of the first `n` characters of a path without the slashes at its end, and the
/// dots behind slashes that stand for the directory itself.
pub open spec fn trimmed_len(path: Seq<char>, n: int) -> int
    decreases n,
{
    if n > 0 && path[n - 1] == '/' {
        trimmed_len(path, n - 1)
    } else if n > 1 && path[n - 1] == '.' && path[n - 2] == '/' {
        trimmed_len(path, n - 1)
    } else {
        n
    }
}

/// Where the name begins that ends behind the first `n` characters of a path.
pub open spec fn name_start(path: Seq<char>, n: int) -> int
    decreases n,
{
    if n <= 0 || path[n - 1] == '/' {
        n
    } else {
        name_start(path, n - 1)
    }
}

/// The last dot before `n` in the name that begins at `from`, but for one it begins with.
pub open spec fn last_dot(path: Seq<char>, from: int, n: int) -> Option<int>
    decreases n - from,
{
    if n <= from + 1 {
        None
    } else if path[n - 1] == '.' {
        Some(n - 1)
    } else {
        last_dot(path, from, n - 1)
    }
}

/// A path whose last name has another extension. A path that ends in no name, but in the root or a
/// relation to another directory, stays as it is.
pub open spec fn extended(path: Seq<char>, ext: Seq<char>) -> Seq<char> {
    let n = trimmed_len(path, path.len() as int);
    let from = name_start(path, n);
    let name = path.subrange(from, n);
    if n <= 0 || name == seq!['.'] || name == seq!['.', '.'] {
        path
    } else {
        let end = match last_dot(path, from, n) {
            Some(k) => k,
            None => n,
        };
        path.take(end) + (if ext.len() == 0 {
            Seq::empty()
        } else {
            seq!['.'] + ext
        })
    }
}

/// A path below a directory.
pub fn join_path(dir: &str, path: &str) -> (r: String)
    ensures
        r@ == joined(dir@, path@),
{
    proof {
        reveal_strlit("/");
    }
    let mut r = dir.to_owned();
    let n: usize = dir.unicode_len();
    if path.unicode_len() > 0 && path.get_char(0) == '/' {
        return path.to_owned();
    }
    if n > 0 && dir.get_char(n - 1) != '/' {
        r.append("/");
    }
    r.append(path);
    assert(r@ =~= joined(dir@, path@));
    r
}

/// A path with another extension, which holds no slash.
pub fn with_extension(path: &str, ext: &str) -> (r: String)
    requires
        !ext@.contains('/'),
    ensures
        r@ == extended(path@, ext@),
{
    proof {
        reveal_strlit(".");
    }
    let len: usize = path.unicode_len();
    let mut n: usize = len;
    while n > 0 && (path.get_char(n - 1) == '/' || (n > 1 && path.get_char(n - 1) == '.'
        && path.get_char(n - 2) == '/'))
        invariant
            n <= len,
            len == path@.len(),
            trimmed_len(path@, len as int) == trimmed_len(path@, n as int),
        decreases n,
    {
        n = n - 1;
    }
    let mut from: usize = n;
    while from > 0 && path.get_char(from - 1) != '/'
        invariant
            from <= n <= len,
            len == path@.len(),
            name_start(path@, n as int) == name_start(path@, from as int),
        decreases from,
    {
        from = from - 1;
    }
    let name: usize = n - from;
    let ghost text = path@.subrange(from as int, n as int);
    let relation = (name == 1 && path.get_char(from) == '.') || (name == 2 && path.get_char(from)
        == '.' && path.get_char(from + 1) == '.');
    proof {
        if relation {
            assert(text =~= seq!['.'] || text =~= seq!['.', '.']);
        }
        let one = seq!['.'];
        let two = seq!['.', '.'];
        assert(one.len() == 1 && one[0] == '.' && two.len() == 2 && two[0] == '.' && two[1] == '.');
        assert(text == one ==> name == 1 && text[0] == path@[from as int]);
        assert(text == two ==> name == 2 && text[1] == path@[from + 1]);
        assert(relation == (text == one || text == two));
    }
    if n == 0 || relation {
        return path.to_owned();
    }
    let mut k: usize = n;
    while k > from + 1 && path.get_char(k - 1) != '.'
        invariant
            from <= k <= n <= len,
            from < n,
            len == path@.len(),
            last_dot(path@, from as int, n as int) == last_dot(path@, from as int, k as int),
        decreases k,
    {
        k = k - 1;
    }
    let end: usize = if k > from + 1 {
        k - 1
    } else {
        n
    };
    let stem = path.substring_char(0, end);
    assert(stem@ =~= path@.take(end as int));
    let mut r = stem.to_owned();
    if ext.unicode_len() > 0 {
        r.append(".");
        r.append(ext);
    }
    assert(r@ =~= extended(path@, ext@));
    r
}

/// Where cached audio of a name lies: below the cache's directory, with an extension in place of
/// what stands behind the last dot of the name.
pub fn cache_path(dir: &str, key: &str, ext: &str) -> (r: String)
    requires
        !ext@.contains('/'),
    ensures
        r@ == extended(joined(dir@, key@), ext@),
{
    let path = join_path(dir, key);
    with_extension(path.as_str(), ext)
}

/// Whether a text can stand for itself in a path: it is not empty and holds no slash and no dot.
pub open spec fn is_plain_name(name: Seq<char>) -> bool {
    name.len() > 0 && !name.contains('/') && !name.contains('.')
}

proof fn lemma_plain_name(path: Seq<char>, from: int, n: int)
    requires
        0 <= from <= n <= path.len(),
        from > 0 ==> path[from - 1] == '/',
        forall|i: int| from <= i < n ==> path[i] != '/' && path[i] != '.',
    ensures
        name_start(path, n) == from,
        last_dot(path, from, n) is None,
    decreases n,
{
    if n > from {
        lemma_plain_name(path, from, n - 1);
    }
}

/// A plain name lies in the cache's directory under that name and the extension.
pub proof fn law_plain_names_keep_their_text(dir: Seq<char>, key: Seq<char>, ext: Seq<char>)
    requires
        is_plain_name(key),
        ext.len() > 0,
    ensures
        extended(joined(dir, key), ext) == joined(dir, key) + seq!['.'] + ext,
{
    let path = joined(dir, key);
    let n = path.len() as int;
    let from = n - key.len();
    assert(key[0] != '/') by {
        assert(key.contains(key[0]));
    }
    assert forall|i: int| from <= i < n implies path[i] != '/' && path[i] != '.' by {
        assert(path[i] == key[i - from]);
        assert(key.contains(key[i - from]));
    }
    lemma_plain_name(path, from, n);
    assert(path[n - 1] == key[key.len() - 1]);
    let name = path.subrange(from, n);
    assert(name[0] == path[from]);
    assert(path.take(n) =~= path);
    assert(extended(path, ext) =~= path + seq!['.'] + ext);
}

/// Audio of two plain names lies in two places.
pub proof fn law_plain_names_lie_apart(
    dir: Seq<char>,
    key: Seq<char>,
    other: Seq<char>,
    ext: Seq<char>,
)
    requires
        is_plain_name(key),
        is_plain_name(other),
        key != other,
        ext.len() > 0,
    ensures
        extended(joined(dir, key), ext) != extended(joined(dir, other), ext),
{
    law_plain_names_keep_their_text(dir, key, ext);
    law_plain_names_keep_their_text(dir, other, ext);
    let a = joined(dir, key);
    let b = joined(dir, other);
    assert(key.contains(key[0]) && other.contains(other[0]));
    let tail = seq!['.'] + ext;
    assert(a + seq!['.'] + ext =~= a + tail);
    assert(b + seq!['.'] + ext =~= b + tail);
    if a + tail == b + tail {
        assert(a =~= (a + tail).take((a + tail).len() - tail.len()));
        assert(b =~= (b + tail).take((b + tail).len() - tail.len()));
        assert(key =~= a.skip(a.len() - key.len()));
        assert(other =~= b.skip(b.len() - other.len()));
    }
}

proof fn lemma_hex_injective(a: Seq<u8>, b: Seq<u8>)
    requires
        hex_text(a) == hex_text(b),
    ensures
        a == b,
{
    let ta = hex_text(a);
    let tb = hex_text(b);
    assert(ta.len() == tb.len());
    assert forall|i: int| 0 <= i < a.len() implies a[i] == b[i] by {
        assert(ta[2 * i] == hex_digit((a[i] / 16) as nat));
        assert(tb[2 * i] == hex_digit((b[i] / 16) as nat));
        assert(ta[2 * i + 1] == hex_digit((a[i] % 16) as nat));
        assert(tb[2 * i + 1] == hex_digit((b[i] % 16) as nat));
        assert(a[i] / 16 == b[i] / 16);
        assert(a[i] % 16 == b[i] % 16);
    }
    assert(a =~= b);
}

/// Speech of another sample rate, or of another digest, has another name, whoever speaks and at
/// whatever speed.
pub proof fn law_rate_and_digest_tell_keys_apart(
    digest: Seq<u8>,
    rate: u32,
    speaker: Option<Seq<char>>,
    speed: Option<Seq<char>>,
    other_digest: Seq<u8>,
    other_rate: u32,
    other_speaker: Option<Seq<char>>,
    other_speed: Option<Seq<char>>,
)
    requires
        digest.len() == other_digest.len(),
        digest != other_digest || rate != other_rate,
    ensures
        key_text(digest, rate, speaker, speed) != key_text(
            other_digest,
            other_rate,
            other_speaker,
            other_speed,
        ),
{
    let a = key_text(digest, rate, speaker, speed);
    let b = key_text(other_digest, other_rate, other_speaker, other_speed);
    if a == b {
        let n = 2 * digest.len() as int;
        let da = decimal(rate as nat);
        let db = decimal(other_rate as nat);
        assert(hex_text(digest) =~= a.take(n));
        assert(hex_text(other_digest) =~= b.take(n));
        lemma_hex_injective(digest, other_digest);
        assert(da =~= a.subrange(n + 1, n + 1 + da.len()));
        assert(db =~= b.subrange(n + 1, n + 1 + db.len()));
        assert(a[n + 1 + da.len()] == '_');
        assert(b[n + 1 + db.len()] == '_');
        if da.len() < db.len() {
            lemma_decimal_digits(other_rate as nat, da.len() as int);
            assert(db[da.len() as int] == b[n + 1 + da.len()]);
        } else if db.len() < da.len() {
            lemma_decimal_digits(rate as nat, db.len() as int);
            assert(da[db.len() as int] == a[n + 1 + db.len()]);
        }
        assert(da =~= db);
        lemma_decimal_injective(rate as nat, other_rate as nat);
    }
}

/// The name of cached speech tells speakers and speeds apart where all else is the same. No speed
/// stands for the speed 1.
pub proof fn law_speaker_and_speed_tell_keys_apart(
    digest: Seq<u8>,
    rate: u32,
    speaker: Seq<char>,
    other_speaker: Seq<char>,
    speed: Seq<char>,
    other_speed: Seq<char>,
)
    ensures
        speaker != other_speaker ==> key_text(digest, rate, Some(speaker), Some(speed)) != key_text(
            digest,
            rate,
            Some(other_speaker),
            Some(speed),
        ),
        speed != other_speed ==> key_text(digest, rate, Some(speaker), Some(speed)) != key_text(
            digest,
            rate,
            Some(speaker),
            Some(other_speed),
        ),
        speed != other_speed ==> key_text(digest, rate, None, Some(speed)) != key_text(
            digest,
            rate,
            None,
            Some(other_speed),
        ),
        key_text(digest, rate, Some(speaker), None) == key_text(
            digest,
            rate,
            Some(speaker),
            Some(seq!['1']),
        ),
        key_text(digest, rate, None, None) == key_text(digest, rate, None, Some(seq!['1'])),
{
    let head = hex_text(digest) + seq!['_'] + decimal(rate as nat);
    let n = head.len() as int;
    let a = key_text(digest, rate, Some(speaker), Some(speed));
    let b = key_text(digest, rate, Some(other_speaker), Some(speed));
    let c = key_text(digest, rate, Some(speaker), Some(other_speed));
    if a == b {
        assert(speaker =~= a.subrange(n + 1, a.len() - speed.len() - 1));
        assert(other_speaker =~= b.subrange(n + 1, b.len() - speed.len() - 1));
    }
    if a == c {
        assert(speed =~= a.skip(n + 2 + speaker.len()));
        assert(other_speed =~= c.skip(n + 2 + speaker.len()));
    }
    let d = key_text(digest, rate, None, Some(speed));
    let e = key_text(digest, rate, None, Some(other_speed));
    if d == e {
        assert(speed =~= d.skip(n + 1));
        assert(other_speed =~= e.skip(n + 1));
    }
}

/// A relative path lies below the directory, with one slash between them; one that begins at the
/// root stands for itself.
pub proof fn law_paths_lie_below_their_directory(dir: Seq<char>, path: Seq<char>)
    ensures
        path.len() > 0 && path[0] == '/' ==> joined(dir, path) == path,
        path.len() == 0 || path[0] != '/' ==> {
            let whole = joined(dir, path);
            &&& whole.len() >= dir.len() + path.len()
            &&& whole.take(dir.len() as int) == dir
            &&& whole.skip(whole.len() - path.len()) == path
            &&& dir.len() > 0 ==> whole[whole.len() - path.len() - 1] == '/'
            &&& whole.len() == dir.len() + path.len() + (if dir.len() == 0 || dir.last() == '/' {
                0int
            } else {
                1
            })
        },
{
    if path.len() == 0 || path[0] != '/' {
        let whole = joined(dir, path);
        assert(whole.take(dir.len() as int) =~= dir);
        assert(whole.skip(whole.len() - path.len()) =~= path);
    }
}

proof fn lemma_name_with_a_dot(path: Seq<char>, from: int, dot: int, n: int)
    requires
        0 <= from < dot < n <= path.len(),
        from > 0 ==> path[from - 1] == '/',
        path[dot] == '.',
        forall|i: int| from <= i < n ==> path[i] != '/',
        forall|i: int| dot < i < n ==> path[i] != '.',
    ensures
        name_start(path, n) == from,
        last_dot(path, from, n) == Some(dot),
    decreases n,
{
    lemma_name_start(path, from, n);
    if n > dot + 1 {
        lemma_name_with_a_dot(path, from, dot, n - 1);
    }
}

proof fn lemma_name_start(path: Seq<char>, from: int, n: int)
    requires
        0 <= from <= n <= path.len(),
        from > 0 ==> path[from - 1] == '/',
        forall|i: int| from <= i < n ==> path[i] != '/',
    ensures
        name_start(path, n) == from,
    decreases n,
{
    if n > from {
        lemma_name_start(path, from, n - 1);
    }
}

/// The extension of a name in the cache's directory is replaced, and all before it stays.
pub proof fn law_extension_is_replaced(
    dir: Seq<char>,
    stem: Seq<char>,
    last: Seq<char>,
    ext: Seq<char>,
)
    requires
        stem.len() > 0,
        !stem.contains('/'),
        is_plain_name(last),
        ext.len() > 0,
    ensures
        extended(joined(dir, stem + seq!['.'] + last), ext) == joined(dir, stem) + seq!['.'] + ext,
{
    let key = stem + seq!['.'] + last;
    let path = joined(dir, key);
    let n = path.len() as int;
    let from = n - key.len();
    let dot = from + stem.len();
    assert(stem.contains(stem[0]));
    assert(key[0] == stem[0]);
    assert forall|i: int| from <= i < n implies path[i] != '/' by {
        assert(path[i] == key[i - from]);
        if i < dot {
            assert(stem.contains(stem[i - from]));
        } else if i > dot {
            assert(key[i - from] == last[i - dot - 1]);
            assert(last.contains(last[i - dot - 1]));
        }
    }
    assert forall|i: int| dot < i < n implies path[i] != '.' by {
        assert(path[i] == key[i - from]);
        assert(key[i - from] == last[i - dot - 1]);
        assert(last.contains(last[i - dot - 1]));
    }
    assert(path[dot] == '.');
    assert(path[n - 1] != '/' && path[n - 1] != '.');
    lemma_name_with_a_dot(path, from, dot, n);
    let name = path.subrange(from, n);
    assert(name[name.len() - 1] == path[n - 1]);
    assert(name != seq!['.'] && name != seq!['.', '.']) by {
        assert(seq!['.'][0] == '.');
        assert(seq!['.', '.'][1] == '.');
    }
    assert(path.take(dot) =~= joined(dir, stem));
    assert(extended(path, ext) =~= joined(dir, stem) + seq!['.'] + ext);
}

/// The name of cached speech begins with the digest, two hexadecimal digits in small letters for
/// each byte, the high one first; behind a line stand the sample rate, the speaker where there is
/// one, and the speed, each behind a line of its own.
pub proof fn law_keys_begin_with_the_digest(
    digest: Seq<u8>,
    rate: u32,
    speaker: Seq<char>,
    speed: Seq<char>,
    i: int,
)
    requires
        0 <= i < digest.len(),
    ensures
        ({
            let key = key_text(digest, rate, Some(speaker), Some(speed));
            let plain = key_text(digest, rate, None, Some(speed));
            let high = key[2 * i];
            let low = key[2 * i + 1];
            let high_value = if high <= '9' {
                high as int - 48
            } else {
                high as int - 87
            };
            let low_value = if low <= '9' {
                low as int - 48
            } else {
                low as int - 87
            };
            let n = 2 * digest.len() as int;
            &&& '0' <= high <= '9' || 'a' <= high <= 'f'
            &&& '0' <= low <= '9' || 'a' <= low <= 'f'
            &&& 16 * high_value + low_value == digest[i]
            &&& key.skip(n) == seq!['_'] + decimal(rate as nat) + seq!['_'] + speaker + seq!['_']
                + speed
            &&& plain.take(n) == key.take(n)
            &&& plain.skip(n) == seq!['_'] + decimal(rate as nat) + seq!['_'] + speed
        }),
{
    let key = key_text(digest, rate, Some(speaker), Some(speed));
    let plain = key_text(digest, rate, None, Some(speed));
    let text = hex_text(digest);
    assert(text[2 * i] == hex_digit((digest[i] / 16) as nat));
    assert(text[2 * i + 1] == hex_digit((digest[i] % 16) as nat));
    assert(key[2 * i] == text[2 * i] && key[2 * i + 1] == text[2 * i + 1]);
    let n = 2 * digest.len() as int;
    assert(key.take(n) =~= text);
    assert(plain.take(n) =~= text);
    assert(key.skip(n) =~= seq!['_'] + decimal(rate as nat) + seq!['_'] + speaker + seq!['_'] + speed);
    assert(plain.skip(n) =~= seq!['_'] + decimal(rate as nat) + seq!['_'] + speed);
}

} // verus!
