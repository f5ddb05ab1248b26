//! Settings of the tracker, and the rules that tag new entries by project.

use vstd::prelude::*;

use crate::error::SiganError;
use crate::string_set::{StringSet, str_equal};
use crate::text::chars_of;
use vstd::string::StringExecFns;

verus! {

#[verifier::external_type_specification]
#[verifier::external_body]
pub struct ExRegex(regex::Regex);

#[verifier::external_type_specification]
#[verifier::external_body]
pub struct ExRegexError(regex::Error);

/// Whether `regex` accepts `pattern` as a regular expression.
pub uninterp spec fn regex_compiles(pattern: Seq<char>) -> bool;

/// Whether the regular expression `pattern` matches somewhere in `text`,
/// as `regex` decides.
pub uninterp spec fn regex_finds(pattern: Seq<char>, text: Seq<char>) -> bool;

/// A compiled regular expression together with its source.
pub struct CompiledPattern {
    regex: regex::Regex,
    source: Ghost<Seq<char>>,
}

impl CompiledPattern {
    /// The text the expression was compiled from.
    pub closed spec fn pattern(self) -> Seq<char> {
        self.source@
    }
}

/// Compiles `pattern`.
///
/// Trusted: calls `regex::Regex::new`. The contract claims that the call
/// succeeds exactly when `regex` accepts the pattern (a name for
/// `regex`'s syntax and size limits, which this library does not restate)
/// and that the compiled expression keeps the pattern it came from.
#[verifier::external_body]
fn compile_pattern(pattern: &str) -> (r: Result<CompiledPattern, regex::Error>)
    ensures
        r is Ok <==> regex_compiles(pattern@),
        r matches Ok(c) ==> c.pattern() == pattern@,
{
    match regex::Regex::new(pattern) {
        Ok(regex) => Ok(CompiledPattern { regex, source: Ghost(pattern@) }),
        Err(e) => Err(e),
    }
}

/// Whether the compiled expression matches somewhere in `text`.
///
/// Trusted: calls `regex::Regex::is_match`. The contract names the result:
/// a function of the pattern and the text alone.
#[verifier::external_body]
fn pattern_is_match(p: &CompiledPattern, text: &str) -> (b: bool)
    ensures
        b == regex_finds(p.pattern(), text@),
{
    p.regex.is_match(text)
}

/// A rule that adds tags to a new entry whose project matches a pattern.
#[derive(Debug)]
pub struct AutoTagRule {
    pub pattern: String,
    pub match_type: String,
    pub tags: Vec<String>,
}

/// The settings of the tracker.
#[derive(Debug)]
pub struct Config {
    pub data_filename: String,
    pub output: String,
    pub editor: String,
    pub editor_format: String,
    pub delta_format: String,
    pub table_style: String,
    pub table_inner_borders: String,
    pub locale: String,
    pub auto_tag_rules: Vec<AutoTagRule>,
}

/// The text `regex`.
pub open spec fn regex_word() -> Seq<char> {
    seq!['r', 'e', 'g', 'e', 'x']
}

/// The tags a sequence of rules gives a project, added to `acc`, or the
/// first refusal: a match type other than `regex`, or a pattern that does
/// not compile.
pub open spec fn auto_tags_from(
    rules: Seq<AutoTagRule>,
    project: Seq<char>,
    acc: Set<Seq<char>>,
) -> Result<Set<Seq<char>>, SiganError>
    decreases rules.len(),
{
    if rules.len() == 0 {
        Ok(acc)
    } else {
        let rule = rules[0];
        if rule.match_type@ != regex_word() {
            Err(SiganError::UnsupportedMatchType(rule.match_type))
        } else if !regex_compiles(rule.pattern@) {
            Err(SiganError::InvalidPattern(rule.pattern))
        } else {
            let next = if regex_finds(rule.pattern@, project) {
                acc.union(rule.tags@.map_values(|s: String| s@).to_set())
            } else {
                acc
            };
            auto_tags_from(rules.drop_first(), project, next)
        }
    }
}

/// The error of the same kind and text.
pub open spec fn same_error(a: SiganError, b: SiganError) -> bool {
    match (a, b) {
        (SiganError::UnsupportedMatchType(x), SiganError::UnsupportedMatchType(y)) => x@ == y@,
        (SiganError::InvalidPattern(x), SiganError::InvalidPattern(y)) => x@ == y@,
        _ => a == b,
    }
}

impl Config {
    /// The tags that the auto-tag rules give `project`: the tags of every
    /// rule whose pattern matches it. Refused at the first rule whose match
    /// type is not `regex` or whose pattern does not compile.
    pub fn apply_auto_tags(&self, project: &str) -> (r: Result<StringSet, SiganError>)
        ensures
            match (r, auto_tags_from(self.auto_tag_rules@, project@, Set::empty())) {
                (Ok(tags), Ok(expected)) => tags@ == expected,
                (Err(e), Err(expected)) => same_error(e, expected),
                _ => false,
            },
    {
        let mut tags = StringSet::new();
        let rules = &self.auto_tag_rules;
        let mut i: usize = 0;
        assert(rules@.skip(0) =~= rules@);
        while i < rules.len()
            invariant
                i <= rules@.len(),
                rules@ == self.auto_tag_rules@,
                auto_tags_from(rules@, project@, Set::empty()) == auto_tags_from(
                    rules@.skip(i as int),
                    project@,
                    tags@,
                ),
            decreases rules@.len() - i,
        {
            let rule = &rules[i];
            assert(rules@.skip(i as int)[0] == rules@[i as int]);
            assert(rules@.skip(i as int).drop_first() =~= rules@.skip(i + 1));
            proof {
                reveal_strlit("regex");
                assert("regex"@ =~= regex_word());
            }
            if !str_equal(rule.match_type.as_str(), "regex") {
                return Err(SiganError::UnsupportedMatchType(rule.match_type.clone()));
            }
            let compiled = match compile_pattern(rule.pattern.as_str()) {
                Ok(c) => c,
                Err(_) => {
                    return Err(SiganError::InvalidPattern(rule.pattern.clone()));
                },
            };
            if pattern_is_match(&compiled, project) {
                let add = StringSet::from_strings(clone_strings(&rule.tags));
                tags.extend(&add);
            }
            i = i + 1;
        }
        Ok(tags)
    }
}

/// The output format used when none is configured.
pub fn default_output() -> (r: String)
    ensures
        r@ == "ansi"@,
{
    String::from_str("ansi")
}

/// The editor used when none is configured: the value of `$EDITOR` when it
/// is set, else `nano`.
pub fn default_editor(editor_variable: Option<String>) -> (r: String)
    ensures
        editor_variable matches Some(e) ==> r@ == e@,
        editor_variable is None ==> r@ == "nano"@,
{
    match editor_variable {
        Some(e) => e,
        None => String::from_str("nano"),
    }
}

/// The format entries are edited in when none is configured.
pub fn default_editor_format() -> (r: String)
    ensures
        r@ == "yaml"@,
{
    String::from_str("yaml")
}

/// The duration format used when none is configured.
pub fn default_delta_format() -> (r: String)
    ensures
        r@ == "decimal"@,
{
    String::from_str("decimal")
}

/// The table style used when none is configured.
pub fn default_table_style() -> (r: String)
    ensures
        r@ == "utf8-condensed"@,
{
    String::from_str("utf8-condensed")
}

/// The inner border style used when none is configured.
pub fn default_table_inner_borders() -> (r: String)
    ensures
        r@ == "solid"@,
{
    String::from_str("solid")
}

/// The locale used when none is configured.
pub fn default_locale() -> (r: String)
    ensures
        r@ == "en_US"@,
{
    String::from_str("en_US")
}

/// The match type of a rule that names none.
pub fn default_match_type() -> (r: String)
    ensures
        r@ == "regex"@,
{
    String::from_str("regex")
}

/// `base` followed by the relative path `segment`, with a `/` between them
/// unless `base` is empty or ends in one, as `PathBuf::push` joins a
/// relative path on Unix.
pub open spec fn joined(base: Seq<char>, segment: Seq<char>) -> Seq<char> {
    if base.len() == 0 {
        segment
    } else if base.last() == '/' {
        base + segment
    } else {
        base + seq!['/'] + segment
    }
}

/// Joins a relative path to `base`, as `joined` says.
pub fn join_path(base: String, segment: &str) -> (r: String)
    ensures
        r@ == joined(base@, segment@),
{
    let chars = chars_of(base.as_str());
    if chars.len() == 0 {
        return String::from_str(segment);
    }
    let mut r = base;
    if chars[chars.len() - 1] != '/' {
        r.append("/");
        proof {
            reveal_strlit("/");
        }
    }
    r.append(segment);
    r
}

/// The home directory of the user.
///
/// Trusted: calls `dirs::home_dir()` and turns the path into text. Which
/// directory comes back depends on the environment; nothing is stated.
#[verifier::external_body]
fn home_dir() -> Option<String> {
    match dirs::home_dir() {
        Some(p) => Some(p.to_string_lossy().into_owned()),
        None => None,
    }
}

/// The configuration directory of the platform.
///
/// Trusted: calls `dirs::config_dir()` and turns the path into text. Which
/// directory comes back depends on the platform and the environment;
/// nothing is stated.
#[verifier::external_body]
fn platform_config_dir() -> Option<String> {
    match dirs::config_dir() {
        Some(p) => Some(p.to_string_lossy().into_owned()),
        None => None,
    }
}

/// The directory of the tracker's files under a home directory (`.` when
/// there is none): `<home>/.config/sigan`.
pub open spec fn config_dir_under(home: Option<Seq<char>>) -> Seq<char> {
    let base = match home {
        Some(h) => h,
        None => seq!['.'],
    };
    joined(joined(base, ".config"@), "sigan"@)
}

/// The directory of the tracker's files: `<home>/.config/sigan`.
pub fn default_config_dir() -> (r: String)
    ensures
        exists|home: Option<Seq<char>>| r@ == config_dir_under(home),
{
    let home = home_dir();
    let ghost h = match home {
        Some(ref x) => Some(x@),
        None => None,
    };
    let base = match home {
        Some(h) => h,
        None => String::from_str("."),
    };
    proof {
        reveal_strlit(".");
    }
    let r = join_path(join_path(base, ".config"), "sigan");
    assert(r@ == config_dir_under(h));
    r
}

/// The entry file used when none is configured:
/// `<home>/.config/sigan/time_entries.toml`.
pub fn default_data_path() -> (r: String)
    ensures
        exists|home: Option<Seq<char>>| r@ == joined(config_dir_under(home), "time_entries.toml"@),
{
    join_path(default_config_dir(), "time_entries.toml")
}

/// The preferred configuration file: `<home>/.config/sigan/config.toml`.
pub fn default_config_path() -> (r: String)
    ensures
        exists|home: Option<Seq<char>>| r@ == joined(config_dir_under(home), "config.toml"@),
{
    join_path(default_config_dir(), "config.toml")
}

/// The configuration file in the platform's configuration directory:
/// `<config dir>/sigan/config.toml`, or the preferred one's directory when
/// the platform has none.
pub fn platform_config_path() -> (r: String)
    ensures
        exists|base: Seq<char>| r@ == joined(joined(base, "sigan"@), "config.toml"@),
{
    let base = match platform_config_dir() {
        Some(d) => d,
        None => default_config_dir(),
    };
    let ghost b = base@;
    let r = join_path(join_path(base, "sigan"), "config.toml");
    assert(r@ == joined(joined(b, "sigan"@), "config.toml"@));
    r
}

/// Which configuration file to read: the preferred one when it exists,
/// else the platform's when that exists, else the preferred one.
pub fn choose_config_path(
    preferred: String,
    preferred_exists: bool,
    platform: String,
    platform_exists: bool,
) -> (r: String)
    ensures
        r@ == (if !preferred_exists && platform_exists {
            platform@
        } else {
            preferred@
        }),
{
    if preferred_exists {
        preferred
    } else if platform_exists {
        platform
    } else {
        preferred
    }
}

impl Config {
    /// The settings used when no configuration file exists, with the given
    /// editor.
    pub fn defaults_with_editor(editor: String) -> (c: Config)
        ensures
            exists|home: Option<Seq<char>>| c.data_filename@ == joined(
                config_dir_under(home),
                "time_entries.toml"@,
            ),
            c.output@ == "ansi"@,
            c.editor@ == editor@,
            c.editor_format@ == "yaml"@,
            c.delta_format@ == "decimal"@,
            c.table_style@ == "utf8-condensed"@,
            c.table_inner_borders@ == "solid"@,
            c.locale@ == "en_US"@,
            c.auto_tag_rules@.len() == 0,
    {
        Config {
            data_filename: default_data_path(),
            output: default_output(),
            editor,
            editor_format: default_editor_format(),
            delta_format: default_delta_format(),
            table_style: default_table_style(),
            table_inner_borders: default_table_inner_borders(),
            locale: default_locale(),
            auto_tag_rules: Vec::new(),
        }
    }
}

/// Clones of the strings, in order.
pub fn clone_strings(v: &Vec<String>) -> (r: Vec<String>)
    ensures
        r@.map_values(|s: String| s@) == v@.map_values(|s: String| s@),
{
    let mut r: Vec<String> = Vec::new();
    let mut i: usize = 0;
    while i < v.len()
        invariant
            i <= v@.len(),
            r@.map_values(|s: String| s@) =~= v@.map_values(|s: String| s@).take(i as int),
        decreases v@.len() - i,
    {
        r.push(v[i].clone());
        assert(v@.map_values(|s: String| s@).take(i + 1) =~= v@.map_values(|s: String| s@).take(
            i as int,
        ).push(v@[i as int]@));
        i = i + 1;
    }
    assert(v@.map_values(|s: String| s@).take(i as int) =~= v@.map_values(|s: String| s@));
    r
}

} // verus!
