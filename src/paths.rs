//! Text operations on file paths and URIs: the file name, its stem and
//! extension, and the `file://` prefix.
use vstd::prelude::*;

verus! {

/// The position of the last `c` in `s`, or -1.
pub open spec fn last_index_of(s: Seq<char>, c: char) -> int
    decreases s.len(),
{
    if s.len() == 0 {
        -1
    } else if s.last() == c {
        s.len() - 1
    } else {
        last_index_of(s.drop_last(), c)
    }
}

/// The last component of a `/`-separated path.
pub open spec fn file_name(p: Seq<char>) -> Seq<char> {
    p.subrange(last_index_of(p, '/') + 1, p.len() as int)
}

/// The file name without its extension: up to its last `.`, unless that
/// dot opens the name.
pub open spec fn stem_of(p: Seq<char>) -> Seq<char> {
    let name = file_name(p);
    let dot = last_index_of(name, '.');
    if dot > 0 { name.subrange(0, dot) } else { name }
}

/// The extension of the file name: what follows its last `.`, unless that
/// dot opens the name.
pub open spec fn extension_of(p: Seq<char>) -> Option<Seq<char>> {
    let name = file_name(p);
    let dot = last_index_of(name, '.');
    if dot > 0 { Some(name.subrange(dot + 1, name.len() as int)) } else { None }
}

/// Whether an extension names a recognised audio container.
pub open spec fn is_audio_extension(e: Seq<char>) -> bool {
    e == "mp3"@ || e == "flac"@ || e == "wav"@ || e == "m4a"@ || e == "ogg"@
}

/// `uri` without a leading `file://`, if it has one.
pub open spec fn without_file_scheme(uri: Seq<char>) -> Seq<char> {
    if uri.len() >= 7 && uri.subrange(0, 7) == "file://"@ {
        uri.subrange(7, uri.len() as int)
    } else {
        uri
    }
}

/// The position of the last `c` in `s`, if any.
pub fn last_index(s: &str, c: char) -> (r: Option<usize>)
    ensures
        r is None <==> last_index_of(s@, c) == -1,
        r matches Some(i) ==> i as int == last_index_of(s@, c),
{
    let n = s.unicode_len();
    let mut i: usize = n;
    assert(s@.subrange(0, n as int) =~= s@);
    while i > 0
        invariant
            i <= s@.len(),
            n == s@.len(),
            last_index_of(s@, c) == last_index_of(s@.subrange(0, i as int), c),
        decreases i,
    {
        let ghost pre = s@.subrange(0, i as int);
        assert(pre.drop_last() =~= s@.subrange(0, i - 1));
        if s.get_char(i - 1) == c {
            return Some(i - 1);
        }
        i = i - 1;
    }
    None
}

/// The file name of `path` without its extension.
pub fn file_stem(path: &str) -> (r: String)
    ensures
        r@ == stem_of(path@),
{
    proof {
        lemma_last_index_bounds(path@, '/');
    }
    let n = path.unicode_len();
    let start: usize = match last_index(path, '/') {
        Some(i) => i + 1,
        None => 0,
    };
    let name = path.substring_char(start, n);
    proof {
        lemma_last_index_bounds(name@, '.');
    }
    match last_index(name, '.') {
        Some(d) => if d > 0 {
            name.substring_char(0, d).to_owned()
        } else {
            name.to_owned()
        },
        None => name.to_owned(),
    }
}

proof fn lemma_last_index_bounds(s: Seq<char>, c: char)
    ensures
        -1 <= last_index_of(s, c) < s.len(),
    decreases s.len(),
{
    if s.len() > 0 {
        lemma_last_index_bounds(s.drop_last(), c);
    }
}

/// Whether `path` names a file of a recognised audio container, by its
/// extension (case-sensitive).
pub fn is_audio_file(path: &str) -> (r: bool)
    ensures
        r == (extension_of(path@) matches Some(e) && is_audio_extension(e)),
{
    proof {
        lemma_last_index_bounds(path@, '/');
    }
    let n = path.unicode_len();
    let start: usize = match last_index(path, '/') {
        Some(i) => i + 1,
        None => 0,
    };
    let name = path.substring_char(start, n);
    proof {
        lemma_last_index_bounds(name@, '.');
    }
    match last_index(name, '.') {
        Some(d) => if d > 0 {
            let e = name.substring_char(d + 1, name.unicode_len()).to_owned();
            e == "mp3".to_owned() || e == "flac".to_owned() || e == "wav".to_owned()
                || e == "m4a".to_owned() || e == "ogg".to_owned()
        } else {
            false
        },
        None => false,
    }
}

/// The filesystem path that `uri` names: `uri` with a leading `file://`
/// removed, or `uri` itself.
pub fn strip_file_uri(uri: &str) -> (r: &str)
    ensures
        r@ == without_file_scheme(uri@),
{
    let n = uri.unicode_len();
    if n >= 7 && uri.substring_char(0, 7).to_owned() == "file://".to_owned() {
        uri.substring_char(7, n)
    } else {
        uri
    }
}

} // verus!
