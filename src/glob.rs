//! Glob patterns over track paths, matched through an anchored regular expression:
//! `*` is any run of characters, `?` exactly one, `\` takes the next character
//! literally, and every other character stands for itself.
use vstd::prelude::*;

use crate::text::{chars_of, push_char, push_str};

verus! {

/// Whether the regular expression `source` matches somewhere in `text`.
pub uninterp spec fn regex_accepts(source: Seq<char>, text: Seq<char>) -> bool;

/// Whether `source` is a regular expression that the regex crate accepts.
pub uninterp spec fn regex_compiles(source: Seq<char>) -> bool;

#[verifier::external_type_specification]
#[verifier::external_body]
pub struct ExRegex(regex::Regex);

#[verifier::external_type_specification]
#[verifier::external_body]
pub struct ExRegexError(regex::Error);

/// The characters that have a meaning in a regular expression.
pub open spec fn is_meta(c: char) -> bool {
    c == '\\' || c == '.' || c == '+' || c == '*' || c == '?' || c == '(' || c == ')' || c
        == '|' || c == '[' || c == ']' || c == '{' || c == '}' || c == '^' || c == '$' || c
        == '#' || c == '&' || c == '-' || c == '~'
}

/// `s` with a backslash put before each character that has a meaning in a regular
/// expression.
pub open spec fn escaped(s: Seq<char>) -> Seq<char>
    decreases s.len(),
{
    if s.len() == 0 {
        Seq::empty()
    } else {
        (if is_meta(s[0]) {
            seq!['\\', s[0]]
        } else {
            seq![s[0]]
        }) + escaped(s.drop_first())
    }
}

/// The regular expression, without anchors, that a glob pattern stands for.
pub open spec fn glob_body(p: Seq<char>) -> Seq<char>
    decreases p.len(),
{
    if p.len() == 0 {
        Seq::empty()
    } else if p[0] == '*' {
        seq!['.', '*'] + glob_body(p.drop_first())
    } else if p[0] == '?' {
        seq!['.'] + glob_body(p.drop_first())
    } else if p[0] == '\\' {
        if p.len() >= 2 {
            escaped(seq![p[1]]) + glob_body(p.subrange(2, p.len() as int))
        } else {
            seq!['\\', '\\']
        }
    } else {
        escaped(seq![p[0]]) + glob_body(p.drop_first())
    }
}

/// The start of every glob's regular expression: the start anchor, then the `s` flag,
/// so that `.` matches any character, line breaks included.
pub open spec fn glob_prefix() -> Seq<char> {
    seq!['^', '(', '?', 's', ')']
}

/// The regular expression that a glob pattern stands for, anchored at both ends so
/// that it matches whole paths only.
pub open spec fn glob_source(p: Seq<char>) -> Seq<char> {
    glob_prefix() + glob_body(p) + seq!['$']
}

/// Relies on `regex::escape`: each character for which
/// `regex_syntax::is_meta_character` holds gets a backslash before it.
#[verifier::external_body]
fn escape_regex(s: &str) -> (r: String)
    ensures
        r@ == escaped(s@),
{
    regex::escape(s)
}

/// Relies on `regex::Regex::new`: it fails exactly on the patterns that the crate
/// refuses, which depends on the pattern alone.
#[verifier::external_body]
fn compile_regex(source: &str) -> (r: Result<regex::Regex, regex::Error>)
    ensures
        r is Ok <==> regex_compiles(source@),
{
    regex::Regex::new(source)
}

/// Relies on `regex::Regex::is_match`, on a regex that `Glob::new`, the only
/// constructor of `Glob`, compiled from the glob's `source`.
#[verifier::external_body]
fn glob_regex_matches(glob: &Glob, text: &str) -> (r: bool)
    ensures
        r == regex_accepts(glob.source(), text@),
{
    glob.regex.is_match(text)
}

proof fn lemma_escaped_concat(a: Seq<char>, b: Seq<char>)
    ensures
        escaped(a + b) == escaped(a) + escaped(b),
    decreases a.len(),
{
    if a.len() == 0 {
        assert(a + b =~= b);
        assert(escaped(a) + escaped(b) =~= escaped(b));
    } else {
        assert((a + b).drop_first() =~= a.drop_first() + b);
        lemma_escaped_concat(a.drop_first(), b);
        assert(escaped(a + b) =~= escaped(a) + escaped(b));
    }
}

/// The text of the regular expression that a glob pattern stands for.
pub fn glob_regex_source(pattern: &str) -> (r: String)
    ensures
        r@ == glob_source(pattern@),
{
    let p = chars_of(pattern);
    let n = p.len();
    let mut out = String::new();
    push_char(&mut out, '^');
    push_char(&mut out, '(');
    push_char(&mut out, '?');
    push_char(&mut out, 's');
    push_char(&mut out, ')');
    assert(out@ =~= glob_prefix());
    let mut literal = String::new();
    let mut i: usize = 0;
    assert(p@.subrange(0, n as int) =~= p@);
    while i < n
        invariant
            p@ == pattern@,
            n == p.len(),
            i <= n,
            out@ + escaped(literal@) + glob_body(p@.subrange(i as int, n as int)) == glob_prefix()
                + glob_body(pattern@),
        decreases n - i,
    {
        let ghost rest = p@.subrange(i as int, n as int);
        let ghost before = out@;
        let ch = p[i];
        assert(rest[0] == ch);
        assert(rest.drop_first() =~= p@.subrange(i + 1, n as int));
        if ch == '*' || ch == '?' || ch == '\\' {
            let flushed = escape_regex(literal.as_str());
            push_str(&mut out, flushed.as_str());
            literal = String::new();
            assert(escaped(literal@) =~= Seq::<char>::empty());
            if ch == '*' {
                push_char(&mut out, '.');
                push_char(&mut out, '*');
                i = i + 1;
            } else if ch == '?' {
                push_char(&mut out, '.');
                i = i + 1;
            } else if i + 1 < n {
                let next = p[i + 1];
                let mut one = String::new();
                push_char(&mut one, next);
                assert(one@ =~= seq![next]);
                let quoted = escape_regex(one.as_str());
                push_str(&mut out, quoted.as_str());
                assert(rest.subrange(2, rest.len() as int) =~= p@.subrange(i + 2, n as int));
                i = i + 2;
            } else {
                push_char(&mut out, '\\');
                push_char(&mut out, '\\');
                i = i + 1;
                assert(p@.subrange(i as int, n as int) =~= Seq::<char>::empty());
            }
        } else {
            let ghost lit = literal@;
            push_char(&mut literal, ch);
            proof {
                lemma_escaped_concat(lit, seq![ch]);
                assert(lit.push(ch) =~= lit + seq![ch]);
            }
            i = i + 1;
        }
        assert(out@ + escaped(literal@) + glob_body(p@.subrange(i as int, n as int)) =~= glob_prefix()
            + glob_body(pattern@));
    }
    let flushed = escape_regex(literal.as_str());
    push_str(&mut out, flushed.as_str());
    push_char(&mut out, '$');
    assert(glob_body(p@.subrange(n as int, n as int)) =~= Seq::<char>::empty());
    assert(out@ =~= glob_source(pattern@));
    out
}

/// The anchored regular expression that a glob pattern stands for.
pub fn glob_to_regex(pattern: &str) -> (r: Result<regex::Regex, regex::Error>)
    ensures
        r is Ok <==> regex_compiles(glob_source(pattern@)),
{
    let source = glob_regex_source(pattern);
    compile_regex(source.as_str())
}

/// A compiled glob pattern.
pub struct Glob {
    regex: regex::Regex,
    source: String,
}

impl Glob {
    /// The regular expression this glob was compiled from.
    pub closed spec fn source(&self) -> Seq<char> {
        self.source@
    }

    pub fn new(pattern: &str) -> (r: Result<Glob, regex::Error>)
        ensures
            r is Ok <==> regex_compiles(glob_source(pattern@)),
            r matches Ok(g) ==> g.source() == glob_source(pattern@),
    {
        let source = glob_regex_source(pattern);
        match compile_regex(source.as_str()) {
            Ok(regex) => Ok(Glob { regex, source }),
            Err(e) => Err(e),
        }
    }

    pub fn is_match(&self, value: &str) -> (r: bool)
        ensures
            r == regex_accepts(self.source(), value@),
    {
        glob_regex_matches(self, value)
    }

    /// Whether the whole of a track path matches.
    pub fn is_match_path(&self, path: &String) -> (r: bool)
        ensures
            r == regex_accepts(self.source(), path@),
    {
        self.is_match(path.as_str())
    }
}

} // verus!
