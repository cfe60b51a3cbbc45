//! The sentinel matcher: decides whether a directory entry name satisfies the
//! search target, either by exact string equality or by a full-string match
//! against a compiled pattern.
//!
//! A caller-supplied pattern is implicitly anchored: unless it already starts
//! with `^` and ends with `$`, it is wrapped so that a partial match never
//! counts as a hit. The anchoring is computed by verified code; only the
//! pattern engine itself is taken on trust, at the two calls below.

use vstd::prelude::*;
use vstd::string::*;

verus! {

/// Whether the pattern engine accepts `pattern` (with its default
/// configuration). The result of `regex::Regex::new` on given text; stated
/// only by name, since spelling out the accepted grammar would restate the
/// engine.
pub uninterp spec fn pattern_valid(pattern: Seq<char>) -> bool;

/// Whether `name` contains a match of the compiled `pattern`. The result of
/// `regex::Regex::is_match` on given texts; stated only by name. The patterns
/// this library compiles are anchored, so for them a match is a full-string
/// match.
pub uninterp spec fn pattern_matches(pattern: Seq<char>, name: Seq<char>) -> bool;

#[verifier::external_type_specification]
#[verifier::external_body]
pub struct ExRegex(regex::Regex);

/// A compiled pattern, kept together with the exact text it was compiled
/// from, so that contracts can speak of the match as a function of that text.
pub struct CompiledPattern {
    re: regex::Regex,
    pattern: String,
}

impl CompiledPattern {
    /// The text this pattern was compiled from.
    pub closed spec fn pattern_view(&self) -> Seq<char> {
        self.pattern@
    }

    /// Relies on `regex::Regex::new`: compiling is deterministic in the
    /// pattern text, succeeds exactly on the patterns the engine accepts, and
    /// the returned program matches as that text prescribes. The fields are
    /// private and this is the only constructor, so every `CompiledPattern`
    /// pairs a compiled program with the text it came from.
    #[verifier::external_body]
    pub fn compile(pattern: String) -> (r: Option<CompiledPattern>)
        ensures
            r is Some <==> pattern_valid(pattern@),
            r matches Some(c) ==> c.pattern_view() == pattern@,
    {
        match regex::Regex::new(&pattern) {
            Ok(re) => Some(CompiledPattern { re, pattern }),
            Err(_) => None,
        }
    }

    /// Relies on `regex::Regex::is_match`: the result is a function of the
    /// compiled pattern's text and the name alone (see `compile` for why the
    /// text stored here is that pattern).
    #[verifier::external_body]
    pub fn is_match(&self, name: &str) -> (r: bool)
        ensures
            r == pattern_matches(self.pattern_view(), name@),
    {
        self.re.is_match(name)
    }
}

/// The anchored form of a pattern: a leading `^` and a trailing `$` are added
/// unless already present, so that a match of the anchored pattern is always
/// a full-string match.
pub open spec fn anchored_spec(p: Seq<char>) -> Seq<char> {
    let pre: Seq<char> = if p.len() > 0 && p[0] == '^' {
        Seq::empty()
    } else {
        seq!['^']
    };
    let suf: Seq<char> = if p.len() > 0 && p.last() == '$' {
        Seq::empty()
    } else {
        seq!['$']
    };
    pre + p + suf
}

/// Builds the anchored form of `pattern`.
pub fn anchored_pattern(pattern: &str) -> (r: String)
    ensures
        r@ == anchored_spec(pattern@),
{
    proof {
        reveal_strlit("^");
        reveal_strlit("$");
    }
    let n = pattern.unicode_len();
    let mut out = String::new();
    if !(n > 0 && pattern.get_char(0) == '^') {
        out.append("^");
    }
    out.append(pattern);
    if !(n > 0 && pattern.get_char(n - 1) == '$') {
        out.append("$");
    }
    proof {
        assert(out@ =~= anchored_spec(pattern@));
    }
    out
}

/// The configured search target: an exact entry name, or a pattern whose
/// anchored form was compiled.
pub enum Sentinel {
    Exact(String),
    Pattern(CompiledPattern),
}

impl Sentinel {
    /// What it means for an entry name to satisfy this sentinel.
    pub open spec fn matches_spec(&self, name: Seq<char>) -> bool {
        match self {
            Sentinel::Exact(target) => name == target@,
            Sentinel::Pattern(p) => pattern_matches(p.pattern_view(), name),
        }
    }

    /// A sentinel that matches exactly the entry name `target`.
    pub fn exact(target: String) -> (s: Self)
        ensures
            s matches Sentinel::Exact(t) && t@ == target@,
    {
        Sentinel::Exact(target)
    }

    /// A sentinel that matches an entry name when the whole name matches
    /// `pattern`. Fails (for the caller to report as a fatal configuration
    /// error, before any traversal begins) exactly when the engine rejects
    /// the anchored form of `pattern`.
    pub fn pattern(pattern: &str) -> (r: Option<Self>)
        ensures
            r is Some <==> pattern_valid(anchored_spec(pattern@)),
            r matches Some(s) ==> s matches Sentinel::Pattern(p)
                && p.pattern_view() == anchored_spec(pattern@),
    {
        let anchored = anchored_pattern(pattern);
        match CompiledPattern::compile(anchored) {
            Some(p) => Some(Sentinel::Pattern(p)),
            None => None,
        }
    }

    /// Whether `name` satisfies the sentinel. No side effects; safe to share
    /// read-only across workers.
    pub fn is_match(&self, name: &str) -> (r: bool)
        ensures
            r == self.matches_spec(name@),
    {
        match self {
            Sentinel::Exact(target) => {
                let name_owned = String::from_str(name);
                name_owned.eq(target)
            },
            Sentinel::Pattern(p) => p.is_match(name),
        }
    }
}

} // verus!
