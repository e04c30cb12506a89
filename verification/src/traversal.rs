//! Which entries of a walk are candidates for conversion: regular files
//! below the source root with the profile's source extension, not hidden
//! unless hidden entries are wanted, and not left out by an ignore pattern.
//!
//! The ignore patterns are globs. They are compiled and matched by the
//! `ignore` crate, as override rules relative to the source root. A pattern
//! that is a comment or white space makes no rule.

use crate::path::{extension_of, has_extension, hidden, is_hidden, relative, relative_to, trim_end, trimmed_len};
use crate::profile::{Profile, ProfileView};
use crate::text::{chars_of, texts};
use ignore::overrides::{Override, OverrideBuilder};
use vstd::prelude::*;

verus! {

/// `ignore::overrides::Override`: a compiled set of override rules. Nothing
/// of its inside is known here.
#[verifier::external_type_specification]
#[verifier::external_body]
pub struct ExOverride(Override);

/// `ignore::overrides::OverrideBuilder`: the rules gathered before they are
/// compiled. Nothing of its inside is known here.
#[verifier::external_type_specification]
#[verifier::external_body]
pub struct ExOverrideBuilder(OverrideBuilder);

/// `ignore::Error`: why a rule was refused. Nothing of its inside is known
/// here.
#[verifier::external_type_specification]
#[verifier::external_body]
pub struct ExIgnoreError(ignore::Error);

/// The directory that a builder holds as the root of its rules, as a text.
pub uninterp spec fn builder_root(builder: OverrideBuilder) -> Seq<char>;

/// The lines that a builder holds: for each rule that it has stored, the
/// line as it was stored with the rule, in the order in which they came.
pub uninterp spec fn builder_lines(builder: OverrideBuilder) -> Seq<Seq<char>>;

/// The directory that a compiled set of rules holds as its root, as a text.
pub uninterp spec fn override_root(rules: Override) -> Seq<char>;

/// The lines that a compiled set of rules holds, one for each rule, in
/// order.
pub uninterp spec fn override_lines(rules: Override) -> Seq<Seq<char>>;

/// Whether the override rules that hold the directory `root` and the lines
/// `lines` say that `path` is to be ignored, `path` being a directory or
/// not as `is_dir` says.
pub uninterp spec fn override_ignores(
    root: Seq<char>,
    lines: Seq<Seq<char>>,
    path: Seq<char>,
    is_dir: bool,
) -> bool;

/// Whether a builder of override rules takes `line` without an error.
pub uninterp spec fn override_accepts(line: Seq<char>) -> bool;

/// Whether the override rules that hold the directory `root` and the lines
/// `lines` can be built.
pub uninterp spec fn override_builds(root: Seq<char>, lines: Seq<Seq<char>>) -> bool;

/// A directory as a builder stores it: without `./` at its start.
pub open spec fn stored_root(root: Seq<char>) -> Seq<char> {
    if root.len() >= 2 && root[0] == '.' && root[1] == '/' {
        root.skip(2)
    } else {
        root
    }
}

/// The characters that count as white space: those that Unicode gives the
/// property White_Space, which are the ones that `str::trim_end` cuts.
pub open spec fn is_white_space(c: char) -> bool {
    let code = c as u32;
    ||| 0x0009 <= code <= 0x000D
    ||| code == 0x0020
    ||| code == 0x0085
    ||| code == 0x00A0
    ||| code == 0x1680
    ||| 0x2000 <= code <= 0x200A
    ||| code == 0x2028
    ||| code == 0x2029
    ||| code == 0x202F
    ||| code == 0x205F
    ||| code == 0x3000
}

/// `s` without the white space at its end.
pub open spec fn trim_white_end(s: Seq<char>) -> Seq<char>
    decreases s.len(),
{
    if s.len() > 0 && is_white_space(s.last()) {
        trim_white_end(s.drop_last())
    } else {
        s
    }
}

/// What a builder keeps of a line that it keeps: the line without the white
/// space at its end, or the whole line where it ends in a backslash and a
/// space.
pub open spec fn kept(line: Seq<char>) -> Seq<char> {
    if line.len() >= 2 && line[line.len() - 2] == '\\' && line.last() == ' ' {
        line
    } else {
        trim_white_end(line)
    }
}

/// The line that a builder stores for `line`. It stores none for a comment,
/// which begins with a number sign, and none for a line of which nothing is
/// kept.
pub open spec fn stored_line(line: Seq<char>) -> Option<Seq<char>> {
    if line.len() > 0 && line[0] == '#' {
        None
    } else if kept(line).len() == 0 {
        None
    } else {
        Some(kept(line))
    }
}

/// `OverrideBuilder::new`: a builder for rules relative to `root`, with no
/// rule in it yet. It stores the directory without `./` at its start.
#[verifier::external_body]
fn builder_new(root: &str) -> (builder: OverrideBuilder)
    ensures
        builder_root(builder) == stored_root(root@),
        builder_lines(builder) == Seq::<Seq<char>>::empty(),
{
    OverrideBuilder::new(root)
}

/// `OverrideBuilder::add`: hands one line to the builder. Whether the line
/// is taken depends on the line alone. Of a line that is taken the builder
/// stores what `stored_line` says, behind the lines stored before: nothing
/// for a comment and for a line of white space. A refused line leaves the
/// builder as it was. The directory stays.
#[verifier::external_body]
fn builder_add(builder: &mut OverrideBuilder, line: &str) -> (added: Result<(), ignore::Error>)
    ensures
        added is Ok <==> override_accepts(line@),
        builder_root(*final(builder)) == builder_root(*old(builder)),
        added is Ok ==> builder_lines(*final(builder)) == match stored_line(line@) {
            Some(stored) => builder_lines(*old(builder)).push(stored),
            None => builder_lines(*old(builder)),
        },
        added is Err ==> builder_lines(*final(builder)) == builder_lines(*old(builder)),
{
    builder.add(line).map(|_| ())
}

/// `OverrideBuilder::build`: compiles the rules gathered so far. Whether
/// that succeeds depends on what the builder keeps alone. Compiled rules
/// keep the builder's directory and lines.
#[verifier::external_body]
fn builder_build(builder: &OverrideBuilder) -> (built: Result<Override, ignore::Error>)
    ensures
        built is Ok <==> override_builds(builder_root(*builder), builder_lines(*builder)),
        built matches Ok(rules) ==> override_root(rules) == builder_root(*builder)
            && override_lines(rules) == builder_lines(*builder),
{
    builder.build()
}

/// `Override::matched`, asked whether its answer is `Match::Ignore`. The
/// answer depends on the directory and the lines that the rules keep, on the
/// path and on whether it is taken as a directory, and on nothing else.
#[verifier::external_body]
fn override_matched(rules: &Override, path: &str, is_dir: bool) -> (ignored: bool)
    ensures
        ignored == override_ignores(override_root(*rules), override_lines(*rules), path@, is_dir),
{
    rules.matched(path, is_dir).is_ignore()
}

/// The override line that leaves out what `pattern` matches: the pattern
/// behind an exclamation mark.
pub open spec fn exclusion_line(pattern: Seq<char>) -> Seq<char> {
    seq!['!'] + pattern
}

/// Whether `pattern` makes a rule. A comment makes none, and a pattern of
/// white space makes none: they are the lines for which a builder stores
/// nothing.
pub open spec fn makes_rule(pattern: Seq<char>) -> bool {
    stored_line(pattern) is Some
}

/// The lines that rules keep for a list of ignore patterns: of the override
/// line of each pattern that makes a rule what a builder keeps of it, in
/// order.
pub open spec fn exclusion_lines(patterns: Seq<Seq<char>>) -> Seq<Seq<char>>
    decreases patterns.len(),
{
    if patterns.len() == 0 {
        Seq::empty()
    } else if makes_rule(patterns.last()) {
        exclusion_lines(patterns.drop_last()).push(kept(exclusion_line(patterns.last())))
    } else {
        exclusion_lines(patterns.drop_last())
    }
}

/// Nothing is left of a text without its white space at the end exactly
/// when the text is white space throughout.
pub proof fn lemma_trim_to_nothing(s: Seq<char>)
    ensures
        trim_white_end(s).len() == 0 <==> forall|i: int| 0 <= i < s.len() ==> is_white_space(s[i]),
    decreases s.len(),
{
    if s.len() > 0 && is_white_space(s.last()) {
        let front = s.drop_last();
        lemma_trim_to_nothing(front);
        if trim_white_end(front).len() == 0 {
            assert forall|i: int| 0 <= i < s.len() implies is_white_space(s[i]) by {
                if i < front.len() {
                    assert(s[i] == front[i]);
                }
            }
        } else {
            let i = choose|i: int| 0 <= i < front.len() && !is_white_space(front[i]);
            assert(s[i] == front[i]);
        }
    } else if s.len() > 0 {
        assert(!is_white_space(s[s.len() - 1]));
    }
}

/// White space is cut from the end of a text only: a text that starts with
/// another character keeps that start.
pub proof fn lemma_trim_keeps_start(s: Seq<char>)
    requires
        s.len() > 0,
        !is_white_space(s[0]),
    ensures
        trim_white_end(s).len() > 0,
        trim_white_end(s)[0] == s[0],
    decreases s.len(),
{
    if is_white_space(s.last()) {
        assert(s.len() > 1);
        assert(s.drop_last()[0] == s[0]);
        lemma_trim_keeps_start(s.drop_last());
    }
}

/// The override line of a pattern is no comment, and something of it is
/// kept: a builder that takes it stores a line for it.
pub proof fn lemma_exclusion_line_is_stored(pattern: Seq<char>)
    ensures
        stored_line(exclusion_line(pattern)) == Some(kept(exclusion_line(pattern))),
{
    let line = exclusion_line(pattern);
    assert(line[0] == '!');
    assert(!is_white_space('!'));
    lemma_trim_keeps_start(line);
}

/// Whether `path` has a separator at `k` that ends the name of a directory
/// below `root`.
pub open spec fn is_cut(root: Seq<char>, path: Seq<char>, k: int) -> bool {
    trim_end(root).len() < k < path.len() && path[k] == '/'
}

/// Whether rules that keep `lines`, built for `root`, leave the file `path` out:
/// they ignore the file itself, or a directory on the way from `root` down
/// to it. Without lines nothing is left out.
pub open spec fn excluded_by(root: Seq<char>, lines: Seq<Seq<char>>, path: Seq<char>) -> bool {
    lines.len() > 0 && (override_ignores(stored_root(root), lines, path, false) || exists|k: int|
        #[trigger] is_cut(root, path, k) && override_ignores(
            stored_root(root),
            lines,
            path.take(k),
            true,
        ))
}

/// Whether `pattern` is in order: it makes no rule, or its override line is
/// one that a builder takes.
pub open spec fn in_order(pattern: Seq<char>) -> bool {
    makes_rule(pattern) ==> override_accepts(exclusion_line(pattern))
}

/// Whether each of `patterns` is in order.
pub open spec fn all_accepted(patterns: Seq<Seq<char>>) -> bool {
    forall|j: int| 0 <= j < patterns.len() ==> in_order(#[trigger] patterns[j])
}

/// Whether the pattern at `index` is the first that is not in order.
pub open spec fn first_refused(patterns: Seq<Seq<char>>, index: int) -> bool {
    &&& 0 <= index < patterns.len()
    &&& !in_order(patterns[index])
    &&& forall|j: int| 0 <= j < index ==> in_order(#[trigger] patterns[j])
}

/// Whether the rules for `patterns` and `root` can be built. Where no
/// pattern makes a rule there is nothing to build.
pub open spec fn buildable(root: Seq<char>, patterns: Seq<Seq<char>>) -> bool {
    exclusion_lines(patterns).len() == 0 || override_builds(
        stored_root(root),
        exclusion_lines(patterns),
    )
}

/// What the compiling of `patterns` for `root` comes to. A pattern that
/// makes a rule and is no glob is refused, the first of them by its
/// position. Patterns that are all in order are compiled into rules for
/// their lines, if the set of them can be built, and are unbuildable if
/// not.
pub open spec fn compiles_to(
    root: Seq<char>,
    patterns: Seq<Seq<char>>,
    compiled: Result<IgnoreRules, PatternError>,
) -> bool {
    match compiled {
        Ok(rules) => all_accepted(patterns) && buildable(root, patterns) && rules.root() == root
            && rules.lines() == exclusion_lines(patterns),
        Err(PatternError::Rejected { index }) => first_refused(patterns, index as int),
        Err(PatternError::Unbuildable) => all_accepted(patterns) && !buildable(root, patterns),
    }
}

fn white_space(c: char) -> (white: bool)
    ensures
        white == is_white_space(c),
{
    let code = c as u32;
    (0x0009 <= code && code <= 0x000D) || code == 0x0020 || code == 0x0085 || code == 0x00A0
        || code == 0x1680 || (0x2000 <= code && code <= 0x200A) || code == 0x2028 || code == 0x2029
        || code == 0x202F || code == 0x205F || code == 0x3000
}

/// Decides whether `pattern` makes a rule.
pub fn is_rule(pattern: &str) -> (rule: bool)
    ensures
        rule == makes_rule(pattern@),
{
    let chars = chars_of(pattern);
    let n = chars.len();
    if n == 0 || chars[0] == '#' {
        return false;
    }
    if n >= 2 && chars[n - 2] == '\\' && chars[n - 1] == ' ' {
        return true;
    }
    proof {
        lemma_trim_to_nothing(pattern@);
    }
    let mut i: usize = 0;
    while i < n
        invariant
            i <= n,
            n == chars.len(),
            chars@ == pattern@,
            n > 0 && pattern@[0] != '#',
            kept(pattern@) == trim_white_end(pattern@),
            trim_white_end(pattern@).len() == 0 <==> forall|j: int|
                0 <= j < pattern@.len() ==> is_white_space(pattern@[j]),
            forall|j: int| 0 <= j < i ==> is_white_space(pattern@[j]),
        decreases n - i,
    {
        if !white_space(chars[i]) {
            assert(!is_white_space(pattern@[i as int]));
            return true;
        }
        i += 1;
    }
    false
}

/// Why a profile's ignore patterns could not be compiled.
pub enum PatternError {
    /// The pattern at this position makes a rule and is no glob.
    Rejected { index: usize },
    /// Each pattern is in order, but the set of them could not be compiled.
    Unbuildable,
}

/// The compiled ignore patterns of one profile.
pub struct IgnoreRules {
    root: String,
    matcher: Option<Override>,
}

impl IgnoreRules {
    #[verifier::type_invariant]
    spec fn well_formed(&self) -> bool {
        match self.matcher {
            Some(rules) => {
                &&& override_lines(rules).len() > 0
                &&& override_root(rules) == stored_root(self.root@)
            },
            None => true,
        }
    }

    /// The directory that the rules were built for.
    pub closed spec fn root(&self) -> Seq<char> {
        self.root@
    }

    /// The lines that the rules keep; none where there is no pattern.
    pub closed spec fn lines(&self) -> Seq<Seq<char>> {
        match self.matcher {
            Some(rules) => override_lines(rules),
            None => Seq::empty(),
        }
    }

    /// Whether the rules leave the file `path` out.
    pub open spec fn excluded(&self, path: Seq<char>) -> bool {
        excluded_by(self.root(), self.lines(), path)
    }

    /// Compiles `patterns` into rules relative to `root`, each pattern as a
    /// rule that leaves out what it matches; a comment and a pattern of
    /// white space make no rule. This succeeds exactly when each pattern that
    /// makes a rule is a glob and the set of them can be built. Where no
    /// pattern makes a rule, it succeeds with rules that leave nothing out.
    pub fn compile(root: &str, patterns: &Vec<String>) -> (compiled: Result<IgnoreRules, PatternError>)
        ensures
            compiles_to(root@, texts(patterns@), compiled),
            compiled is Ok <==> all_accepted(texts(patterns@)) && buildable(root@, texts(patterns@)),
            patterns.len() == 0 ==> compiled is Ok,
    {
        let mut builder = builder_new(root);
        let mut rules: usize = 0;
        let mut i: usize = 0;
        assert(texts(patterns@).take(0) =~= Seq::<Seq<char>>::empty());
        while i < patterns.len()
            invariant
                i <= patterns.len(),
                rules <= i,
                builder_root(builder) == stored_root(root@),
                builder_lines(builder) == exclusion_lines(texts(patterns@).take(i as int)),
                rules == builder_lines(builder).len(),
                forall|j: int| 0 <= j < i ==> in_order(#[trigger] texts(patterns@)[j]),
            decreases patterns.len() - i,
        {
            let ghost pattern = texts(patterns@)[i as int];
            proof {
                assert(texts(patterns@).take(i + 1).drop_last() =~= texts(patterns@).take(i as int));
                assert(texts(patterns@).take(i + 1).last() == pattern);
            }
            if is_rule(patterns[i].as_str()) {
                let mut line = String::new();
                proof {
                    reveal_strlit("!");
                    assert("!"@ =~= seq!['!']);
                }
                line.append("!");
                line.append(patterns[i].as_str());
                assert(line@ =~= exclusion_line(pattern));
                match builder_add(&mut builder, line.as_str()) {
                    Ok(()) => {},
                    Err(_) => {
                        return Err(PatternError::Rejected { index: i });
                    },
                }
                proof {
                    lemma_exclusion_line_is_stored(pattern);
                }
                rules += 1;
            }
            i += 1;
        }
        assert(texts(patterns@).take(i as int) =~= texts(patterns@));
        if rules == 0 {
            assert(exclusion_lines(texts(patterns@)) =~= Seq::<Seq<char>>::empty());
            return Ok(IgnoreRules { root: root.to_owned(), matcher: None });
        }
        match builder_build(&builder) {
            Ok(compiled) => Ok(IgnoreRules { root: root.to_owned(), matcher: Some(compiled) }),
            Err(_) => Err(PatternError::Unbuildable),
        }
    }

    /// Compiles the ignore patterns of `profile`, relative to its source
    /// root. A profile without patterns gets rules that leave nothing out.
    pub fn for_profile(profile: &Profile) -> (compiled: Result<IgnoreRules, PatternError>)
        ensures
            compiles_to(profile@.source_root, patterns_of(profile@), compiled),
            compiled is Ok <==> all_accepted(patterns_of(profile@)) && buildable(
                profile@.source_root,
                patterns_of(profile@),
            ),
            patterns_of(profile@).len() == 0 ==> compiled is Ok,
    {
        match &profile.ignore_patterns {
            Some(patterns) => IgnoreRules::compile(profile.source_root.as_str(), patterns),
            None => {
                let none: Vec<String> = Vec::new();
                assert(texts(none@) =~= Seq::<Seq<char>>::empty());
                IgnoreRules::compile(profile.source_root.as_str(), &none)
            },
        }
    }

    /// The compiled rules, for a walk that is to leave out whole directories
    /// early. There are none when there is no pattern; those that there are
    /// keep the directory and the lines of these rules.
    pub fn overrides(&self) -> (rules: Option<&Override>)
        ensures
            rules is Some <==> self.lines().len() > 0,
            rules matches Some(r) ==> override_root(*r) == stored_root(self.root())
                && override_lines(*r) == self.lines(),
    {
        proof {
            use_type_invariant(self);
        }
        self.matcher.as_ref()
    }

    /// Whether the rules leave the file `path` out.
    pub fn excludes(&self, path: &str) -> (out: bool)
        ensures
            out == self.excluded(path@),
    {
        proof {
            use_type_invariant(self);
        }
        match &self.matcher {
            None => false,
            Some(rules) => {
                if override_matched(rules, path, false) {
                    return true;
                }
                let chars = chars_of(path);
                let root_chars = chars_of(self.root.as_str());
                let base = trimmed_len(&root_chars);
                if base >= chars.len() {
                    return false;
                }
                let mut k: usize = base + 1;
                while k < chars.len()
                    invariant
                        base < k,
                        chars@ == path@,
                        base == trim_end(self.root@).len(),
                        self.matcher == Some(*rules),
                        override_lines(*rules).len() > 0,
                        override_root(*rules) == stored_root(self.root@),
                        forall|j: int|
                            #[trigger] is_cut(self.root@, path@, j) && j < k ==> !override_ignores(
                                stored_root(self.root@),
                                override_lines(*rules),
                                path@.take(j),
                                true,
                            ),
                    decreases chars.len() - k,
                {
                    if chars[k] == '/' {
                        proof {
                            assert(path@.subrange(0, k as int) =~= path@.take(k as int));
                        }
                        if override_matched(rules, path.substring_char(0, k), true) {
                            assert(is_cut(self.root@, path@, k as int));
                            return true;
                        }
                    }
                    k += 1;
                }
                false
            },
        }
    }
}

/// One entry that a walk of a source root has listed.
pub struct WalkEntry {
    pub path: String,
    /// Whether the entry is a regular file.
    pub is_file: bool,
}

/// Whether `entry` passes for conversion under `profile`, `left_out` saying
/// whether the ignore rules leave it out: it is a regular file below the
/// source root whose extension is the profile's source extension, it is not
/// hidden unless hidden entries are wanted, and it is not left out.
pub open spec fn is_admitted(
    profile: ProfileView,
    include_hidden: bool,
    entry: WalkEntry,
    left_out: bool,
) -> bool {
    &&& entry.is_file
    &&& extension_of(entry.path@) == Some(profile.source_file_extension)
    &&& relative_to(profile.source_root, entry.path@) matches Some(rel)
    &&& (include_hidden || !is_hidden(rel))
    &&& !left_out
}

/// Whether `entry` is a candidate for conversion under `profile`, the
/// ignore rules being those built from `lines` for the directory `root`.
pub open spec fn is_candidate(
    profile: ProfileView,
    root: Seq<char>,
    lines: Seq<Seq<char>>,
    include_hidden: bool,
    entry: WalkEntry,
) -> bool {
    is_admitted(profile, include_hidden, entry, excluded_by(root, lines, entry.path@))
}

/// The paths of the candidates among `entries`, in their order.
pub open spec fn candidates_of(
    profile: ProfileView,
    root: Seq<char>,
    lines: Seq<Seq<char>>,
    include_hidden: bool,
    entries: Seq<WalkEntry>,
) -> Seq<Seq<char>>
    decreases entries.len(),
{
    if entries.len() == 0 {
        Seq::empty()
    } else {
        let before = candidates_of(profile, root, lines, include_hidden, entries.drop_last());
        if is_candidate(profile, root, lines, include_hidden, entries.last()) {
            before.push(entries.last().path@)
        } else {
            before
        }
    }
}

/// The ignore patterns of a profile; none where the profile has no list.
pub open spec fn patterns_of(profile: ProfileView) -> Seq<Seq<char>> {
    match profile.ignore_patterns {
        Some(patterns) => patterns,
        None => Seq::empty(),
    }
}

/// Whether the ignore patterns of `profile` leave the file `path` out.
pub open spec fn profile_excludes(profile: ProfileView, path: Seq<char>) -> bool {
    excluded_by(profile.source_root, exclusion_lines(patterns_of(profile)), path)
}

/// What a walk under `profile` yields of the entries that it lists: the
/// candidates, by the profile's own ignore patterns, in their order.
pub open spec fn walk_of(profile: ProfileView, include_hidden: bool, entries: Seq<WalkEntry>) -> Seq<
    Seq<char>,
> {
    candidates_of(
        profile,
        profile.source_root,
        exclusion_lines(patterns_of(profile)),
        include_hidden,
        entries,
    )
}

/// Decides whether `entry` passes for conversion under `profile`, given
/// whether the ignore rules leave it out.
pub fn admits(profile: &Profile, include_hidden: bool, entry: &WalkEntry, left_out: bool) -> (admitted:
    bool)
    ensures
        admitted == is_admitted(profile@, include_hidden, *entry, left_out),
        left_out ==> !admitted,
{
    if left_out || !entry.is_file {
        return false;
    }
    let path = entry.path.as_str();
    if !has_extension(path, profile.source_file_extension.as_str()) {
        return false;
    }
    match relative(profile.source_root.as_str(), path) {
        None => false,
        Some(rel) => include_hidden || !hidden(rel.as_str()),
    }
}

/// Decides whether `entry` is a candidate for conversion under `profile`.
/// A file that `rules` leave out is none, whatever its extension.
pub fn accepts(profile: &Profile, rules: &IgnoreRules, include_hidden: bool, entry: &WalkEntry) -> (accepted:
    bool)
    ensures
        accepted == is_candidate(profile@, rules.root(), rules.lines(), include_hidden, *entry),
        rules.excluded(entry.path@) ==> !accepted,
{
    admits(profile, include_hidden, entry, false) && !rules.excludes(entry.path.as_str())
}

/// The candidates among the entries of a walk, in the order of the walk.
/// No file that `rules` leave out is among them.
pub fn candidates(
    profile: &Profile,
    rules: &IgnoreRules,
    include_hidden: bool,
    entries: &Vec<WalkEntry>,
) -> (out: Vec<String>)
    ensures
        texts(out@) == candidates_of(
            profile@,
            rules.root(),
            rules.lines(),
            include_hidden,
            entries@,
        ),
        forall|i: int| 0 <= i < out.len() ==> !rules.excluded(#[trigger] out@[i]@),
{
    let mut out: Vec<String> = Vec::new();
    let mut i: usize = 0;
    while i < entries.len()
        invariant
            i <= entries.len(),
            texts(out@) == candidates_of(
                profile@,
                rules.root(),
                rules.lines(),
                include_hidden,
                entries@.take(i as int),
            ),
            forall|j: int| 0 <= j < out.len() ==> !rules.excluded(#[trigger] out@[j]@),
        decreases entries.len() - i,
    {
        proof {
            assert(entries@.take(i + 1).drop_last() =~= entries@.take(i as int));
        }
        if accepts(profile, rules, include_hidden, &entries[i]) {
            let path = entries[i].path.clone();
            proof {
                assert(texts(out@.push(path)) =~= texts(out@).push(path@));
            }
            out.push(path);
        }
        i += 1;
    }
    assert(entries@.take(i as int) =~= entries@);
    out
}

/// The candidates for conversion under `profile` among the entries that a
/// walk of its source root has listed, in the order of the walk. The
/// profile's ignore patterns are compiled for it: the walk succeeds exactly
/// when each of them is a glob and the set of them can be built, so always
/// under a profile without patterns. No file that an ignore pattern leaves
/// out is yielded, whatever its extension.
pub fn walk(profile: &Profile, include_hidden: bool, entries: &Vec<WalkEntry>) -> (found: Result<
    Vec<String>,
    PatternError,
>)
    ensures
        found is Ok <==> all_accepted(patterns_of(profile@)) && buildable(
            profile@.source_root,
            patterns_of(profile@),
        ),
        patterns_of(profile@).len() == 0 ==> found is Ok,
        match found {
            Ok(out) => {
                &&& texts(out@) == walk_of(profile@, include_hidden, entries@)
                &&& forall|i: int|
                    0 <= i < out.len() ==> !profile_excludes(profile@, #[trigger] out@[i]@)
            },
            Err(PatternError::Rejected { index }) => first_refused(
                patterns_of(profile@),
                index as int,
            ),
            Err(PatternError::Unbuildable) => all_accepted(patterns_of(profile@)) && !buildable(
                profile@.source_root,
                patterns_of(profile@),
            ),
        },
{
    match IgnoreRules::for_profile(profile) {
        Ok(rules) => Ok(candidates(profile, &rules, include_hidden, entries)),
        Err(error) => Err(error),
    }
}

} // verus!
