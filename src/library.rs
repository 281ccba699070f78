//! The music library: the configured directories, and the choice and order of
//! the tracks found in them.
use vstd::prelude::*;

use crate::config::MusicDirectory;
use crate::glob::{glob_source, regex_accepts, regex_compiles, Glob};
use crate::text::{chars_of, equal_upper, spells_upper, string_of};

verus! {

broadcast use vstd::seq_lib::group_to_multiset_ensures;

/// The part of `s` after the last `c`; all of `s` if there is none.
pub open spec fn after_last(s: Seq<char>, c: char) -> Seq<char>
    decreases s.len(),
{
    if s.len() == 0 {
        s
    } else if s.last() == c {
        Seq::empty()
    } else {
        after_last(s.drop_last(), c).push(s.last())
    }
}

/// The extension of a path, as `Path::extension` gives it: what follows the last dot
/// of the file name, unless that dot is the name's first character.
pub open spec fn extension(path: Seq<char>) -> Option<Seq<char>> {
    let name = after_last(path, '/');
    let ext = after_last(name, '.');
    if ext.len() + 1 < name.len() {
        Some(ext)
    } else {
        None
    }
}

/// The extensions of audio files, in any ASCII case.
pub open spec fn is_music_ext(e: Seq<char>) -> bool {
    ||| equal_upper(e, "MP3"@)
    ||| equal_upper(e, "FLAC"@)
    ||| equal_upper(e, "WAV"@)
    ||| equal_upper(e, "OGG"@)
    ||| equal_upper(e, "M4A"@)
    ||| equal_upper(e, "AAC"@)
    ||| equal_upper(e, "OPUS"@)
    ||| equal_upper(e, "ALAC"@)
}

/// A path whose extension names an audio format.
pub open spec fn is_audio_path(path: Seq<char>) -> bool {
    extension(path) matches Some(e) && is_music_ext(e)
}

/// `a` comes before `b`, comparing characters by code point.
pub open spec fn text_lt(a: Seq<char>, b: Seq<char>) -> bool
    decreases a.len(),
{
    if a.len() == 0 {
        b.len() > 0
    } else if b.len() == 0 {
        false
    } else if a[0] != b[0] {
        a[0] < b[0]
    } else {
        text_lt(a.drop_first(), b.drop_first())
    }
}

/// Each path comes no later than the one after it.
pub open spec fn sorted(s: Seq<String>) -> bool {
    forall|i: int| 0 <= i < s.len() - 1 ==> !text_lt(#[trigger] s[i + 1]@, s[i]@)
}

/// A path is listed: it is an audio file and, under a pattern, matches it.
pub open spec fn listed(p: String, source: Option<Seq<char>>) -> bool {
    is_audio_path(p@) && (source matches Some(src) ==> regex_accepts(src, p@))
}

/// The paths of `found` that are listed, in the order found.
pub open spec fn listed_among(found: Seq<String>, source: Option<Seq<char>>) -> Seq<String> {
    found.filter(|p: String| listed(p, source))
}

proof fn lemma_text_lt_asymmetric(a: Seq<char>, b: Seq<char>)
    ensures
        text_lt(a, b) ==> !text_lt(b, a),
    decreases a.len(),
{
    if a.len() > 0 && b.len() > 0 && a[0] == b[0] {
        lemma_text_lt_asymmetric(a.drop_first(), b.drop_first());
    }
}

/// No text comes before itself.
pub proof fn lemma_text_lt_irreflexive(a: Seq<char>)
    ensures
        !text_lt(a, a),
    decreases a.len(),
{
    if a.len() > 0 {
        lemma_text_lt_irreflexive(a.drop_first());
    }
}

/// The order of texts is transitive.
pub proof fn lemma_text_lt_transitive(a: Seq<char>, b: Seq<char>, c: Seq<char>)
    requires
        text_lt(a, b),
        text_lt(b, c),
    ensures
        text_lt(a, c),
    decreases a.len(),
{
    if a.len() > 0 && b.len() > 0 && c.len() > 0 && a[0] == b[0] && b[0] == c[0] {
        lemma_text_lt_transitive(a.drop_first(), b.drop_first(), c.drop_first());
    }
}

/// Of two different texts, one comes before the other.
pub proof fn lemma_text_lt_total(a: Seq<char>, b: Seq<char>)
    requires
        a != b,
    ensures
        text_lt(a, b) || text_lt(b, a),
    decreases a.len(),
{
    if a.len() > 0 && b.len() > 0 {
        if a[0] == b[0] {
            if a.drop_first() =~= b.drop_first() {
                assert(a =~= b) by {
                    assert forall|i: int| 0 <= i < a.len() implies a[i] == b[i] by {
                        if i > 0 {
                            assert(a[i] == a.drop_first()[i - 1]);
                            assert(b[i] == b.drop_first()[i - 1]);
                        }
                    }
                }
            }
            lemma_text_lt_total(a.drop_first(), b.drop_first());
        } else {
            assert(a[0] < b[0] || b[0] < a[0]);
        }
    } else if a.len() == 0 && b.len() == 0 {
        assert(a =~= b);
    }
}

/// Whether `a` comes before `b`.
pub fn text_less(a: &String, b: &String) -> (r: bool)
    ensures
        r == text_lt(a@, b@),
{
    let x = chars_of(a.as_str());
    let y = chars_of(b.as_str());
    let mut i: usize = 0;
    assert(x@.subrange(0, x.len() as int) =~= a@);
    assert(y@.subrange(0, y.len() as int) =~= b@);
    while i < x.len() && i < y.len() && x[i] == y[i]
        invariant
            i <= x.len(),
            i <= y.len(),
            text_lt(a@, b@) == text_lt(
                x@.subrange(i as int, x.len() as int),
                y@.subrange(i as int, y.len() as int),
            ),
        decreases x.len() - i,
    {
        assert(x@.subrange(i as int, x.len() as int).drop_first() =~= x@.subrange(
            i + 1,
            x.len() as int,
        ));
        assert(y@.subrange(i as int, y.len() as int).drop_first() =~= y@.subrange(
            i + 1,
            y.len() as int,
        ));
        i = i + 1;
    }
    if i == x.len() {
        i < y.len()
    } else if i == y.len() {
        false
    } else {
        assert(x@.subrange(i as int, x.len() as int)[0] == x@[i as int]);
        assert(y@.subrange(i as int, y.len() as int)[0] == y@[i as int]);
        x[i] < y[i]
    }
}

/// Inserts `x` into the sorted `out` after the paths that do not come after it.
fn insert_sorted(out: &mut Vec<String>, x: String)
    requires
        sorted(old(out)@),
    ensures
        sorted(final(out)@),
        final(out)@.to_multiset() == old(out)@.to_multiset().insert(x),
{
    let mut k: usize = out.len();
    while k > 0 && text_less(&x, &out[k - 1])
        invariant
            k <= out.len(),
            out@ == old(out)@,
            k < out.len() ==> text_lt(x@, out@[k as int]@),
        decreases k,
    {
        k = k - 1;
    }
    let ghost before = out@;
    proof {
        if k < before.len() {
            lemma_text_lt_asymmetric(x@, before[k as int]@);
        }
    }
    out.insert(k, x);
    assert(out@ == before.insert(k as int, x));
    assert forall|i: int| 0 <= i < out@.len() - 1 implies !text_lt(
        #[trigger] out@[i + 1]@,
        out@[i]@,
    ) by {
        if i + 1 < k {
            assert(out@[i] == before[i] && out@[i + 1] == before[i + 1]);
            assert(!text_lt(before[i + 1]@, before[i]@));
        } else if i + 1 == k {
            assert(out@[i] == before[i] && out@[i + 1] == x);
        } else if i == k {
            assert(out@[i] == x && out@[i + 1] == before[i]);
        } else {
            assert(out@[i] == before[i - 1] && out@[i + 1] == before[i]);
            assert(!text_lt(before[(i - 1) + 1]@, before[i - 1]@));
        }
    }
}

/// The paths of `found` that are listed, under `glob` when given, sorted.
fn select_sorted(found: Vec<String>, glob: Option<&Glob>) -> (r: Vec<String>)
    ensures
        sorted(r@),
        r@.to_multiset() == listed_among(
            found@,
            match glob {
                Some(g) => Some(g.source()),
                None => None,
            },
        ).to_multiset(),
{
    let ghost source = match glob {
        Some(g) => Some(g.source()),
        None => None,
    };
    let ghost pred = |p: String| listed(p, source);
    let mut out: Vec<String> = Vec::new();
    let mut i: usize = 0;
    assert(found@.subrange(0, 0).filter(pred) =~= Seq::<String>::empty()) by {
        reveal(Seq::filter);
    }
    while i < found.len()
        invariant
            i <= found.len(),
            sorted(out@),
            out@.to_multiset() == found@.subrange(0, i as int).filter(pred).to_multiset(),
            pred == (|p: String| listed(p, source)),
            source == match glob {
                Some(g) => Some(g.source()),
                None => None,
            },
        decreases found.len() - i,
    {
        let p = &found[i];
        let keep = is_music_path(p) && match glob {
            Some(g) => g.is_match_path(p),
            None => true,
        };
        assert(found@.subrange(0, i + 1).drop_last() =~= found@.subrange(0, i as int));
        assert(found@.subrange(0, i + 1).last() == found@[i as int]);
        assert(keep == pred(found@[i as int]));
        proof {
            reveal(Seq::filter);
        }
        if keep {
            insert_sorted(&mut out, p.clone());
        }
        i = i + 1;
    }
    assert(found@.subrange(0, found.len() as int) =~= found@);
    out
}

/// Where the part of `v[lo..hi]` after its last `c` begins.
pub(crate) fn suffix_start(v: &Vec<char>, lo: usize, hi: usize, c: char) -> (r: usize)
    requires
        lo <= hi <= v.len(),
    ensures
        lo <= r <= hi,
        v@.subrange(r as int, hi as int) == after_last(v@.subrange(lo as int, hi as int), c),
{
    let mut k: usize = hi;
    while k > lo && v[k - 1] != c
        invariant
            lo <= k <= hi <= v.len(),
            after_last(v@.subrange(lo as int, hi as int), c) == after_last(
                v@.subrange(lo as int, k as int),
                c,
            ) + v@.subrange(k as int, hi as int),
        decreases k - lo,
    {
        let ghost s = v@.subrange(lo as int, k as int);
        assert(s.drop_last() =~= v@.subrange(lo as int, k - 1));
        assert(after_last(s, c) == after_last(s.drop_last(), c).push(v@[k - 1]));
        assert(after_last(s.drop_last(), c).push(v@[k - 1]) + v@.subrange(k as int, hi as int)
            =~= after_last(s.drop_last(), c) + v@.subrange(k - 1, hi as int));
        k = k - 1;
    }
    assert(after_last(v@.subrange(lo as int, k as int), c) =~= Seq::<char>::empty());
    assert(Seq::<char>::empty() + v@.subrange(k as int, hi as int) =~= v@.subrange(
        k as int,
        hi as int,
    ));
    k
}

/// Whether an extension, in any ASCII case, is one of mp3, flac, wav, ogg, m4a, aac,
/// opus and alac.
pub fn is_music_extension(ext: &str) -> (r: bool)
    ensures
        r == is_music_ext(ext@),
{
    let v = chars_of(ext);
    let n = v.len();
    assert(v@.subrange(0, n as int) =~= ext@);
    spells_upper(&v, 0, n, "MP3") || spells_upper(&v, 0, n, "FLAC") || spells_upper(
        &v,
        0,
        n,
        "WAV",
    ) || spells_upper(&v, 0, n, "OGG") || spells_upper(&v, 0, n, "M4A") || spells_upper(
        &v,
        0,
        n,
        "AAC",
    ) || spells_upper(&v, 0, n, "OPUS") || spells_upper(&v, 0, n, "ALAC")
}

/// Whether a path names an audio file, by its extension.
pub fn is_music_path(path: &String) -> (r: bool)
    ensures
        r == is_audio_path(path@),
{
    let v = chars_of(path.as_str());
    let n = v.len();
    assert(v@.subrange(0, n as int) =~= path@);
    let j = suffix_start(&v, 0, n, '/');
    let d = suffix_start(&v, j, n, '.');
    if d > j && d - j > 1 {
        let ext = string_of(&v, d, n);
        is_music_extension(ext.as_str())
    } else {
        false
    }
}

/// The audio files among the files found under the library's directories, sorted.
pub fn collect_music_files(found: Vec<String>) -> (r: Vec<String>)
    ensures
        sorted(r@),
        r@.to_multiset() == listed_among(found@, None).to_multiset(),
{
    select_sorted(found, None)
}

/// The configured music directories.
pub struct Library {
    directories: Vec<String>,
}

impl Library {
    pub closed spec fn dirs(&self) -> Seq<String> {
        self.directories@
    }

    pub fn new(directories: &Vec<MusicDirectory>) -> (r: Library)
        ensures
            r.dirs().len() == directories@.len(),
            forall|i: int| 0 <= i < directories@.len() ==> r.dirs()[i] == directories@[i].dir,
    {
        let mut dirs: Vec<String> = Vec::new();
        let mut i: usize = 0;
        while i < directories.len()
            invariant
                i <= directories.len(),
                dirs@.len() == i,
                forall|j: int| 0 <= j < i ==> dirs@[j] == directories@[j].dir,
            decreases directories.len() - i,
        {
            dirs.push(directories[i].dir.clone());
            i = i + 1;
        }
        Library { directories: dirs }
    }

    pub fn directories(&self) -> (r: &Vec<String>)
        ensures
            r@ == self.dirs(),
    {
        &self.directories
    }

    /// The tracks of the library, sorted: the audio files among `found`, the files
    /// found under its directories; under a filter, only those whose whole path matches
    /// it as a glob pattern, and none if the pattern does not compile.
    pub fn list_tracks(&self, found: Vec<String>, filter: Option<String>) -> (r: Vec<String>)
        ensures
            sorted(r@),
            filter is None ==> r@.to_multiset() == listed_among(found@, None).to_multiset(),
            filter matches Some(f) ==> (if regex_compiles(glob_source(f@)) {
                r@.to_multiset() == listed_among(found@, Some(glob_source(f@))).to_multiset()
            } else {
                r@.len() == 0
            }),
    {
        match filter {
            None => select_sorted(found, None),
            Some(f) => match Glob::new(f.as_str()) {
                Ok(glob) => select_sorted(found, Some(&glob)),
                Err(_) => Vec::new(),
            },
        }
    }
}

} // verus!
