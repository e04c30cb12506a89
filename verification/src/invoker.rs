//! What is handed to a conversion engine for one file: the call with its
//! arguments, escaped where a shell stands in between, and the slot under
//! which a loaded engine is kept.

use crate::path::{output_path, output_path_of, parent, parent_dir, relative_to};
use crate::profile::Profile;
use crate::text::{chars_of, copy_texts, same_text, texts};
use vstd::prelude::*;

verus! {

/// The characters that a shell gives a meaning of its own.
pub open spec fn is_shell_meta(c: char) -> bool {
    c == '&' || c == ';' || c == '|' || c == '>' || c == '<' || c == '`' || c == '$' || c == '('
        || c == ')' || c == ' '
}

/// `s` with a backslash before each character that a shell gives a meaning
/// of its own.
pub open spec fn escaped(s: Seq<char>) -> Seq<char>
    decreases s.len(),
{
    if s.len() == 0 {
        Seq::empty()
    } else if is_shell_meta(s.last()) {
        escaped(s.drop_last()) + seq!['\\', s.last()]
    } else {
        escaped(s.drop_last()) + seq![s.last()]
    }
}

/// In an escaped text no shell character stands unguarded: each has a
/// backslash directly before it.
pub proof fn lemma_escaped_is_guarded(s: Seq<char>)
    ensures
        forall|i: int|
            0 <= i < escaped(s).len() && is_shell_meta(#[trigger] escaped(s)[i]) ==> i > 0
                && escaped(s)[i - 1] == '\\',
    decreases s.len(),
{
    if s.len() > 0 {
        lemma_escaped_is_guarded(s.drop_last());
        let front = escaped(s.drop_last());
        assert forall|i: int|
            0 <= i < escaped(s).len() && is_shell_meta(#[trigger] escaped(s)[i]) implies i > 0
            && escaped(s)[i - 1] == '\\' by {
            if i < front.len() {
                assert(escaped(s)[i] == front[i]);
                assert(escaped(s)[i - 1] == front[i - 1]);
            }
        }
    }
}

/// A text without shell characters is its own escaped form.
pub proof fn lemma_escaped_plain(s: Seq<char>)
    requires
        forall|i: int| 0 <= i < s.len() ==> !is_shell_meta(s[i]),
    ensures
        escaped(s) == s,
    decreases s.len(),
{
    if s.len() > 0 {
        lemma_escaped_plain(s.drop_last());
        assert(s.drop_last() + seq![s.last()] =~= s);
    }
}

fn shell_meta(c: char) -> (meta: bool)
    ensures
        meta == is_shell_meta(c),
{
    c == '&' || c == ';' || c == '|' || c == '>' || c == '<' || c == '`' || c == '$' || c == '('
        || c == ')' || c == ' '
}

/// Puts a backslash before each shell character of `path`.
pub fn escape_shell_chars(path: &str) -> (out: String)
    ensures
        out@ == escaped(path@),
{
    let chars = chars_of(path);
    let n = chars.len();
    let mut out = String::new();
    let mut copied: usize = 0;
    let mut i: usize = 0;
    assert(path@.take(0) =~= Seq::<char>::empty());
    while i < n
        invariant
            n == chars.len(),
            chars@ == path@,
            copied <= i <= n,
            out@ + path@.subrange(copied as int, i as int) == escaped(path@.take(i as int)),
        decreases n - i,
    {
        proof {
            assert(path@.take(i + 1).drop_last() =~= path@.take(i as int));
            assert(path@.subrange(copied as int, i + 1) =~= path@.subrange(copied as int, i as int)
                + seq![path@[i as int]]);
        }
        if shell_meta(chars[i]) {
            proof {
                reveal_strlit("\\");
                assert("\\"@ =~= seq!['\\']);
                assert(path@.subrange(i as int, i + 1) =~= seq![path@[i as int]]);
                assert(out@ + path@.subrange(copied as int, i as int) + seq!['\\']
                    + path@.subrange(i as int, i + 1) =~= escaped(path@.take(i as int)) + seq![
                    '\\',
                    path@[i as int],
                ]);
            }
            out.append(path.substring_char(copied, i));
            out.append("\\");
            copied = i;
        } else {
            assert(out@ + (path@.subrange(copied as int, i as int) + seq![path@[i as int]]) =~= (out@
                + path@.subrange(copied as int, i as int)) + seq![path@[i as int]]);
        }
        i += 1;
    }
    out.append(path.substring_char(copied, n));
    assert(path@.take(n as int) =~= path@);
    out
}

/// What is handed to an engine for one file: the engine's name and its three
/// arguments.
pub struct EngineCall {
    pub engine: String,
    pub source: String,
    pub destination: String,
    pub options: Vec<String>,
}

/// The options that an engine gets: the profile's, or one empty option where
/// the profile has none.
pub open spec fn options_for(options: Option<Seq<Seq<char>>>) -> Seq<Seq<char>> {
    match options {
        Some(list) => list,
        None => seq![Seq::<char>::empty()],
    }
}

/// A path as an engine gets it: escaped where a shell stands between the
/// engine and the file, as it is where none does.
pub open spec fn path_for(path: Seq<char>, through_shell: bool) -> Seq<char> {
    if through_shell {
        escaped(path)
    } else {
        path
    }
}

/// The call that converts `source` into `destination` under `profile`.
/// `through_shell` says whether the engine passes the paths on to a shell.
pub fn engine_call(profile: &Profile, source: &str, destination: &str, through_shell: bool) -> (call:
    EngineCall)
    ensures
        call.engine@ == profile@.engine,
        call.source@ == path_for(source@, through_shell),
        call.destination@ == path_for(destination@, through_shell),
        texts(call.options@) == options_for(profile@.options),
{
    let options = match &profile.options {
        Some(list) => copy_texts(list),
        None => {
            let mut single: Vec<String> = Vec::new();
            single.push(String::new());
            assert(texts(single@) =~= seq![Seq::<char>::empty()]);
            single
        },
    };
    if through_shell {
        EngineCall {
            engine: profile.engine.clone(),
            source: escape_shell_chars(source),
            destination: escape_shell_chars(destination),
            options,
        }
    } else {
        EngineCall {
            engine: profile.engine.clone(),
            source: source.to_owned(),
            destination: destination.to_owned(),
            options,
        }
    }
}

/// The work on one file: where its output goes, the directory that has to be
/// there before the engine runs, and the call.
pub struct Job {
    pub source: String,
    pub destination: String,
    pub directory: String,
    pub call: EngineCall,
}

/// Prepares the conversion of `source` under `profile`. There is none for a
/// file that does not lie below the profile's source root.
pub fn prepare(profile: &Profile, source: &str, through_shell: bool) -> (job: Option<Job>)
    ensures
        job is Some <==> relative_to(profile@.source_root, source@) is Some,
        match output_path_of(
            profile@.source_root,
            profile@.output_root,
            profile@.output_file_extension,
            source@,
        ) {
            Some(destination) => job matches Some(j) && j.source@ == source@ && j.destination@
                == destination && j.directory@ == parent(destination) && j.call.engine@
                == profile@.engine && j.call.source@ == path_for(source@, through_shell)
                && j.call.destination@ == path_for(destination, through_shell) && texts(
                j.call.options@,
            ) == options_for(profile@.options),
            None => job is None,
        },
{
    match output_path(
        profile.source_root.as_str(),
        profile.output_root.as_str(),
        profile.output_file_extension.as_str(),
        source,
    ) {
        Some(destination) => {
            let directory = parent_dir(destination.as_str());
            let call = engine_call(profile, source, destination.as_str(), through_shell);
            Some(Job { source: source.to_owned(), destination, directory, call })
        },
        None => None,
    }
}

/// Whether no name occurs twice.
pub open spec fn no_repeats(names: Seq<Seq<char>>) -> bool {
    forall|i: int, j: int| 0 <= i < j < names.len() ==> names[i] != names[j]
}

/// The engines loaded so far, in the order in which they were first asked
/// for. An engine is loaded once and then used again: its place in this table
/// is the slot under which its loaded routine is kept.
pub struct EngineTable {
    names: Vec<String>,
}

impl View for EngineTable {
    type V = Seq<Seq<char>>;

    closed spec fn view(&self) -> Seq<Seq<char>> {
        texts(self.names@)
    }
}

impl EngineTable {
    #[verifier::type_invariant]
    spec fn well_formed(&self) -> bool {
        no_repeats(texts(self.names@))
    }

    /// A table without engines.
    pub fn new() -> (table: EngineTable)
        ensures
            table@ == Seq::<Seq<char>>::empty(),
    {
        let table = EngineTable { names: Vec::new() };
        assert(table@ =~= Seq::<Seq<char>>::empty());
        table
    }

    /// How many engines are loaded.
    pub fn len(&self) -> (n: usize)
        ensures
            n == self@.len(),
    {
        self.names.len()
    }

    /// The slot of `engine`, and whether it is new, in which case the engine
    /// has to be loaded now. An engine that was asked for before keeps its
    /// slot, and no engine is new twice.
    pub fn slot(&mut self, engine: &str) -> (found: (usize, bool))
        ensures
            no_repeats(old(self)@),
            no_repeats(final(self)@),
            found.1 == !old(self)@.contains(engine@),
            found.1 ==> final(self)@ == old(self)@.push(engine@) && found.0 == old(self)@.len(),
            !found.1 ==> final(self)@ == old(self)@ && found.0 < old(self)@.len() && old(self)@[found.0 as int]
                == engine@,
    {
        proof {
            use_type_invariant(&*self);
        }
        let mut i: usize = 0;
        while i < self.names.len()
            invariant
                i <= self.names.len(),
                self.names@ == old(self).names@,
                no_repeats(texts(self.names@)),
                forall|j: int| 0 <= j < i ==> texts(self.names@)[j] != engine@,
            decreases self.names.len() - i,
        {
            if same_text(self.names[i].as_str(), engine) {
                assert(texts(self.names@)[i as int] == engine@);
                return (i, false);
            }
            i += 1;
        }
        let mut names: Vec<String> = Vec::new();
        std::mem::swap(&mut self.names, &mut names);
        let ghost before = texts(names@);
        names.push(engine.to_owned());
        proof {
            assert(texts(names@) =~= before.push(engine@));
        }
        self.names = names;
        (i, true)
    }
}

} // verus!
