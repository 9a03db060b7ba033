//! Text rewriting rules: one regular-expression substitution each, applied in order.
use vstd::prelude::*;
use crate::text::{decimal, decimal_text};

verus! {

/// Whether `regex::Regex::new` accepts `pattern`.
pub uninterp spec fn regex_compiles(pattern: Seq<char>) -> bool;

/// What `Regex::replace_all` makes of `text` with every match of `pattern` replaced by
/// the expansion of `replacement` (where `$name` stands for a capture group).
pub uninterp spec fn regex_replace_all(
    pattern: Seq<char>,
    text: Seq<char>,
    replacement: Seq<char>,
) -> Seq<char>;

/// Whether `Regex::is_match` finds `pattern` somewhere in `text`.
pub uninterp spec fn regex_finds(pattern: Seq<char>, text: Seq<char>) -> bool;

/// Relies on `regex::Regex::new`, which refuses a pattern outside its syntax or over its
/// size limit; on `Regex::is_match`, which tells whether a compiled pattern matches
/// anywhere in the text; and on `Regex::replace_all`, which substitutes every match and
/// hands the text back unchanged where nothing matches.
#[verifier::external_body]
fn regex_substitute(pattern: &str, text: &str, replacement: &str) -> (r: Option<(bool, String)>)
    ensures
        r is Some <==> regex_compiles(pattern@),
        r matches Some((found, s)) ==> found == regex_finds(pattern@, text@) && s@
            == regex_replace_all(pattern@, text@, replacement@) && (!found ==> s@ == text@),
{
    match regex::Regex::new(pattern) {
        Ok(re) => Some((re.is_match(text), re.replace_all(text, replacement).into_owned())),
        Err(_) => None,
    }
}

/// A pattern and the template that replaces each of its matches.
#[derive(Clone, Debug, PartialEq, Eq)]
pub struct Rule {
    pub pattern: String,
    pub replacement: String,
}

/// A rule as values.
pub struct RuleView {
    pub pattern: Seq<char>,
    pub replacement: Seq<char>,
}

impl View for Rule {
    type V = RuleView;

    open spec fn view(&self) -> RuleView {
        RuleView { pattern: self.pattern@, replacement: self.replacement@ }
    }
}

/// A sequence of rules as values.
pub open spec fn rules_view(rules: Seq<Rule>) -> Seq<RuleView> {
    rules.map_values(|r: Rule| r@)
}

/// Why a rewrite could not be carried out.
#[derive(Clone, Debug, PartialEq, Eq)]
pub enum PatchError {
    /// A rule's pattern is not a valid regular expression.
    InvalidPattern { pattern: String },
    /// A rule that was required to match found nothing in its text.
    NoMatch { pattern: String },
}

/// Why a rewrite stops, as values.
pub enum RuleFailure {
    InvalidPattern(Seq<char>),
    NoMatch(Seq<char>),
}

impl View for PatchError {
    type V = RuleFailure;

    open spec fn view(&self) -> RuleFailure {
        match self {
            PatchError::InvalidPattern { pattern } => RuleFailure::InvalidPattern(pattern@),
            PatchError::NoMatch { pattern } => RuleFailure::NoMatch(pattern@),
        }
    }
}

/// One rule applied to `text`: the text with every match substituted. A pattern that
/// does not compile fails; so does one that finds nothing where `require_match` is set.
pub open spec fn apply_rule_spec(rule: RuleView, text: Seq<char>, require_match: bool) -> Result<
    Seq<char>,
    RuleFailure,
> {
    if !regex_compiles(rule.pattern) {
        Err(RuleFailure::InvalidPattern(rule.pattern))
    } else if require_match && !regex_finds(rule.pattern, text) {
        Err(RuleFailure::NoMatch(rule.pattern))
    } else {
        Ok(regex_replace_all(rule.pattern, text, rule.replacement))
    }
}

/// The rules applied one after the other, first to last; the first rule that fails stops
/// the run.
pub open spec fn apply_rules_spec(rules: Seq<RuleView>, text: Seq<char>, require_match: bool) -> Result<
    Seq<char>,
    RuleFailure,
>
    decreases rules.len(),
{
    if rules.len() == 0 {
        Ok(text)
    } else {
        match apply_rules_spec(rules.drop_last(), text, require_match) {
            Ok(t) => apply_rule_spec(rules.last(), t, require_match),
            Err(f) => Err(f),
        }
    }
}

/// Whether every rule's pattern compiles.
pub open spec fn all_compile(rules: Seq<RuleView>) -> bool {
    forall|i: int| 0 <= i < rules.len() ==> regex_compiles(#[trigger] rules[i].pattern)
}

/// Once a prefix of the rules has failed, the whole sequence fails the same way.
proof fn lemma_failure_persists(
    rules: Seq<RuleView>,
    k: int,
    text: Seq<char>,
    require_match: bool,
    f: RuleFailure,
)
    requires
        0 <= k <= rules.len(),
        apply_rules_spec(rules.subrange(0, k), text, require_match) == Err::<Seq<char>, RuleFailure>(f),
    ensures
        apply_rules_spec(rules, text, require_match) == Err::<Seq<char>, RuleFailure>(f),
    decreases rules.len() - k,
{
    if k < rules.len() {
        let next = rules.subrange(0, k + 1);
        assert(next.drop_last() =~= rules.subrange(0, k));
        lemma_failure_persists(rules, k + 1, text, require_match, f);
    } else {
        assert(rules.subrange(0, k) =~= rules);
    }
}

/// Where matches are not required, a rule sequence succeeds exactly when each of its
/// patterns compiles; the contents of the text play no part in it.
pub proof fn lemma_success_iff_all_compile(rules: Seq<RuleView>, text: Seq<char>)
    ensures
        apply_rules_spec(rules, text, false) is Ok <==> all_compile(rules),
    decreases rules.len(),
{
    if rules.len() > 0 {
        lemma_success_iff_all_compile(rules.drop_last(), text);
        if all_compile(rules) {
            assert(all_compile(rules.drop_last()));
        } else if all_compile(rules.drop_last()) {
            let k = choose|i: int| 0 <= i < rules.len() && !regex_compiles(#[trigger] rules[i].pattern);
            assert(k == rules.len() - 1 || rules.drop_last()[k] == rules[k]);
        }
    }
}

impl Rule {
    /// A rule that replaces each match of `pattern` by `replacement`.
    pub fn new(pattern: &str, replacement: &str) -> (r: Rule)
        ensures
            r.pattern@ == pattern@,
            r.replacement@ == replacement@,
    {
        Rule { pattern: String::from_str(pattern), replacement: String::from_str(replacement) }
    }

    /// Applies this rule to `text`; where `require_match` is set, a pattern that finds
    /// nothing is an error, and otherwise it leaves the text as it was.
    pub fn apply(&self, text: &str, require_match: bool) -> (r: Result<String, PatchError>)
        ensures
            match r {
                Ok(s) => apply_rule_spec(self@, text@, require_match) == Ok::<Seq<char>, RuleFailure>(s@),
                Err(e) => apply_rule_spec(self@, text@, require_match) == Err::<Seq<char>, RuleFailure>(e@),
            },
            r matches Ok(s) ==> (!regex_finds(self.pattern@, text@) ==> s@ == text@),
    {
        match regex_substitute(self.pattern.as_str(), text, self.replacement.as_str()) {
            None => Err(PatchError::InvalidPattern { pattern: self.pattern.clone() }),
            Some((found, s)) => if require_match && !found {
                Err(PatchError::NoMatch { pattern: self.pattern.clone() })
            } else {
                Ok(s)
            },
        }
    }
}

/// Applies `rules` to `text` in their order; where `require_match` is set, each rule
/// must find something in the text it is applied to.
pub fn apply_rules(rules: &Vec<Rule>, text: &str, require_match: bool) -> (r: Result<String, PatchError>)
    ensures
        match r {
            Ok(s) => apply_rules_spec(rules_view(rules@), text@, require_match) == Ok::<Seq<char>, RuleFailure>(s@),
            Err(e) => apply_rules_spec(rules_view(rules@), text@, require_match) == Err::<Seq<char>, RuleFailure>(e@),
        },
{
    let mut current = String::from_str(text);
    let mut i: usize = 0;
    assert(rules@.subrange(0, 0).len() == 0);
    while i < rules.len()
        invariant
            i <= rules.len(),
            apply_rules_spec(rules_view(rules@.subrange(0, i as int)), text@, require_match) == Ok::<
                Seq<char>,
                RuleFailure,
            >(current@),
        decreases rules.len() - i,
    {
        let rule = &rules[i];
        let step = rule.apply(current.as_str(), require_match);
        assert(rules_view(rules@.subrange(0, i + 1)).drop_last() =~= rules_view(rules@.subrange(0, i as int)));
        assert(rules_view(rules@.subrange(0, i + 1)).last() == rules@[i as int]@);
        match step {
            Ok(s) => {
                current = s;
            },
            Err(e) => {
                proof {
                    assert(rules_view(rules@).subrange(0, i + 1) =~= rules_view(rules@.subrange(0, i + 1)));
                    lemma_failure_persists(rules_view(rules@), i + 1, text@, require_match, e@);
                }
                return Err(e);
            },
        }
        i += 1;
    }
    assert(rules@.subrange(0, i as int) =~= rules@);
    Ok(current)
}

/// The pattern that matches an `#include` line for `header`, captured as `h`.
pub open spec fn include_pattern(header: Seq<char>) -> Seq<char> {
    "(?P<h>#include "@ + header + ")"@
}

/// The pattern that matches a line holding `name(` and the `lines` lines after it, all
/// captured as `c`; the first line is captured as `n` where `signature` is set.
pub open spec fn function_pattern(name: Seq<char>, lines: nat, signature: bool) -> Seq<char> {
    if signature {
        "(?P<c>(?P<n>"@ + name + "\\(.*\\n)(.*\\n){"@ + decimal(lines) + "})"@
    } else {
        "(?P<c>"@ + name + "\\(.*\\n(.*\\n){"@ + decimal(lines) + "})"@
    }
}

/// The replacement that keeps a capture `c` as a comment.
pub open spec fn commented_capture() -> Seq<char> {
    "/** $c **/"@
}

/// The replacement that comments out a function and gives its signature `n` a new body.
pub open spec fn disabled_body(body: Seq<char>) -> Seq<char> {
    "/** $c **/ $n { "@ + body + " }"@
}

/// Turns the `#include` of `header` into a comment.
pub fn remove_header_file(header: &str) -> (r: Rule)
    ensures
        r.pattern@ == include_pattern(header@),
        r.replacement@ == "/** $h **/"@,
{
    let mut pattern = String::from_str("(?P<h>#include ");
    pattern.append(header);
    pattern.append(")");
    Rule { pattern, replacement: String::from_str("/** $h **/") }
}

/// Adds an `#include` of `another_header` on the line after the `#include` of
/// `after_header`.
pub fn add_header_file(after_header: &str, another_header: &str) -> (r: Rule)
    ensures
        r.pattern@ == include_pattern(after_header@),
        r.replacement@ == "$h\n#include "@ + another_header@,
{
    let mut pattern = String::from_str("(?P<h>#include ");
    pattern.append(after_header);
    pattern.append(")");
    let mut replacement = String::from_str("$h\n#include ");
    replacement.append(another_header);
    Rule { pattern, replacement }
}

fn function_pattern_text(name: &str, lines: usize, signature: bool) -> (r: String)
    ensures
        r@ == function_pattern(name@, lines as nat, signature),
{
    let mut pattern = if signature {
        String::from_str("(?P<c>(?P<n>")
    } else {
        String::from_str("(?P<c>")
    };
    pattern.append(name);
    if signature {
        pattern.append("\\(.*\\n)(.*\\n){");
    } else {
        pattern.append("\\(.*\\n(.*\\n){");
    }
    let count = decimal_text(lines);
    pattern.append(count.as_str());
    pattern.append("})");
    pattern
}

/// Comments out the function whose first line holds `name(`, together with the `lines`
/// lines of its body that follow.
pub fn remove_function(name: &str, lines: usize) -> (r: Rule)
    ensures
        r.pattern@ == function_pattern(name@, lines as nat, false),
        r.replacement@ == commented_capture(),
{
    Rule { pattern: function_pattern_text(name, lines, false), replacement: String::from_str("/** $c **/") }
}

/// Comments out the function whose first line holds `name(` and the `lines` lines that
/// follow, and gives its signature the body `{ new_body }`.
pub fn disable_function(name: &str, lines: usize, new_body: &str) -> (r: Rule)
    ensures
        r.pattern@ == function_pattern(name@, lines as nat, true),
        r.replacement@ == disabled_body(new_body@),
{
    let mut replacement = String::from_str("/** $c **/ $n { ");
    replacement.append(new_body);
    replacement.append(" }");
    Rule { pattern: function_pattern_text(name, lines, true), replacement }
}

} // verus!
