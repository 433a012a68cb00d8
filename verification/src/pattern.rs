//! Shell-style glob patterns, matched against file base names by way of an
//! anchored regular expression.

use vstd::prelude::*;

use crate::text::{chars_of, push_char};

verus! {

/// The characters that have a meaning of their own in a regular expression
/// and are therefore escaped when they occur in a glob.
pub open spec fn is_regex_meta(c: char) -> bool {
    c == '.' || c == '(' || c == ')' || c == '+' || c == '|' || c == '[' || c == ']' || c == '^'
        || c == '$' || c == '?' || c == '{' || c == '}' || c == '\\'
}

/// The regular-expression text that stands for one glob character.
pub open spec fn glob_char_regex(c: char) -> Seq<char> {
    if c == '*' {
        seq!['.', '*']
    } else if is_regex_meta(c) {
        seq!['\\', c]
    } else {
        seq![c]
    }
}

/// The regular-expression texts of the characters of `glob`, one after the
/// other.
pub open spec fn glob_body_regex(glob: Seq<char>) -> Seq<char>
    decreases glob.len(),
{
    if glob.len() == 0 {
        Seq::empty()
    } else {
        glob_body_regex(glob.drop_last()) + glob_char_regex(glob.last())
    }
}

/// The anchored regular expression of a glob: `^`, the body, `$`.
pub open spec fn glob_regex(glob: Seq<char>) -> Seq<char> {
    seq!['^'] + glob_body_regex(glob) + seq!['$']
}

/// Whether `regex::Regex::new` accepts `pattern` as the source of a regular
/// expression: its syntax is valid and the compiled program stays within the
/// crate's default size limit.
pub uninterp spec fn regex_valid(pattern: Seq<char>) -> bool;

/// What `regex::Regex::is_match` answers for `text` on the expression that
/// `regex::Regex::new` compiles from `pattern`.
pub uninterp spec fn regex_search(pattern: Seq<char>, text: Seq<char>) -> bool;

/// Whether `name` is matched by `glob`: the answer of the regular-expression
/// engine for the expression of the glob. What the engine answers is not
/// spelled out here; in particular its `.` matches no line feed, so `*`
/// spans none.
pub open spec fn glob_matches(glob: Seq<char>, name: Seq<char>) -> bool {
    regex_search(glob_regex(glob), name)
}

/// `regex::Regex::new`, kept only as the answer whether the pattern compiles.
#[verifier::external_body]
fn regex_compiles(pattern: &str) -> (ok: bool)
    ensures
        ok == regex_valid(pattern@),
{
    regex::Regex::new(pattern).is_ok()
}

/// `regex::Regex::is_match` on the expression compiled from `pattern` by
/// `regex::Regex::new`; `None` exactly when the pattern does not compile.
#[verifier::external_body]
fn regex_is_match(pattern: &str, text: &str) -> (found: Option<bool>)
    ensures
        found is Some <==> regex_valid(pattern@),
        found matches Some(b) ==> b == regex_search(pattern@, text@),
{
    match regex::Regex::new(pattern) {
        Ok(re) => Some(re.is_match(text)),
        Err(_) => None,
    }
}

/// Writes the anchored regular expression of a glob: `*` becomes `.*`, the
/// characters that the expression language gives a meaning are escaped, and
/// every other character stands for itself.
pub fn glob_to_regex(pattern: &str) -> (regex: String)
    ensures
        regex@ == glob_regex(pattern@),
{
    let glob = chars_of(pattern);
    let mut out = String::new();
    push_char(&mut out, '^');
    let n = glob.len();
    let mut i: usize = 0;
    while i < n
        invariant
            n == glob.len(),
            glob@ == pattern@,
            i <= n,
            out@ == seq!['^'] + glob_body_regex(pattern@.take(i as int)),
        decreases n - i,
    {
        let c = glob[i];
        proof {
            let next = pattern@.take(i + 1);
            assert(next.drop_last() == pattern@.take(i as int));
        }
        if c == '*' {
            push_char(&mut out, '.');
            push_char(&mut out, '*');
        } else if c == '.' || c == '(' || c == ')' || c == '+' || c == '|' || c == '[' || c == ']'
            || c == '^' || c == '$' || c == '?' || c == '{' || c == '}' || c == '\\' {
            push_char(&mut out, '\\');
            push_char(&mut out, c);
        } else {
            push_char(&mut out, c);
        }
        i += 1;
    }
    assert(pattern@.take(n as int) == pattern@);
    push_char(&mut out, '$');
    out
}

/// A compiled glob: a predicate over file base names.
pub struct Matcher {
    glob: String,
    regex: String,
}

impl Matcher {
    #[verifier::type_invariant]
    spec fn inv(self) -> bool {
        &&& self.regex@ == glob_regex(self.glob@)
        &&& regex_valid(self.regex@)
    }

    /// The glob this matcher was compiled from.
    pub closed spec fn glob(self) -> Seq<char> {
        self.glob@
    }

    /// Compiles `glob`. Fails only when the regular-expression engine
    /// refuses the expression of the glob.
    pub fn compile(glob: &str) -> (matcher: Option<Matcher>)
        ensures
            matcher is Some <==> regex_valid(glob_regex(glob@)),
            matcher matches Some(m) ==> m.glob() == glob@,
    {
        let regex = glob_to_regex(glob);
        if regex_compiles(regex.as_str()) {
            Some(Matcher { glob: String::from_str(glob), regex })
        } else {
            None
        }
    }

    /// Whether the whole of `name` is matched by the glob.
    pub fn matches(&self, name: &str) -> (hit: bool)
        ensures
            hit == glob_matches(self.glob(), name@),
    {
        proof {
            use_type_invariant(self);
        }
        match regex_is_match(self.regex.as_str(), name) {
            Some(b) => b,
            None => false,
        }
    }

    /// The source text of the glob.
    pub fn pattern(&self) -> (glob: &str)
        ensures
            glob@ == self.glob(),
    {
        self.glob.as_str()
    }
}

} // verus!
