//! Profiles: what to convert, where to, by which engine, and what has been
//! converted so far. A profile is kept in the store as a row whose list
//! fields are texts of lines.

use crate::metadata::{rows_map, Metadata, MetadataEntry};
use crate::path::relative_to;
use crate::text::{
    join_lines, joined, lemma_lines_of_joined, lines_of, reads_back, same_text, split_lines,
    text_of, texts,
};
use vstd::prelude::*;

verus! {

/// A conversion job definition.
pub struct Profile {
    /// Identity given by the store.
    pub id: u32,
    /// Name of the conversion routine.
    pub engine: String,
    pub source_root: String,
    pub source_file_extension: String,
    pub output_root: String,
    pub output_file_extension: String,
    /// Options handed to the engine, in order.
    pub options: Option<Vec<String>>,
    /// Globs of what the walk leaves out, relative to the source root.
    pub ignore_patterns: Option<Vec<String>>,
    /// Per source file, its modification time at its last successful
    /// conversion; absent until one file was converted.
    pub metadata: Option<Metadata>,
}

/// A profile as a value: texts, lists of texts and a map.
pub struct ProfileView {
    pub id: u32,
    pub engine: Seq<char>,
    pub source_root: Seq<char>,
    pub source_file_extension: Seq<char>,
    pub output_root: Seq<char>,
    pub output_file_extension: Seq<char>,
    pub options: Option<Seq<Seq<char>>>,
    pub ignore_patterns: Option<Seq<Seq<char>>>,
    pub metadata: Option<Map<Seq<char>, i64>>,
}

impl ProfileView {
    /// Whether every file that the metadata names lies below the source
    /// root: nothing else is ever converted under the profile.
    pub open spec fn metadata_below_root(self) -> bool {
        match self.metadata {
            Some(m) => forall|file: Seq<char>| #[trigger]
                m.contains_key(file) ==> relative_to(self.source_root, file) is Some,
            None => true,
        }
    }
}

/// The texts of an optional list.
pub open spec fn list_view(list: Option<Vec<String>>) -> Option<Seq<Seq<char>>> {
    match list {
        Some(items) => Some(texts(items@)),
        None => None,
    }
}

/// The map of an optional record.
pub open spec fn metadata_view(metadata: Option<Metadata>) -> Option<Map<Seq<char>, i64>> {
    match metadata {
        Some(m) => Some(m@),
        None => None,
    }
}

impl View for Profile {
    type V = ProfileView;

    open spec fn view(&self) -> ProfileView {
        ProfileView {
            id: self.id,
            engine: self.engine@,
            source_root: self.source_root@,
            source_file_extension: self.source_file_extension@,
            output_root: self.output_root@,
            output_file_extension: self.output_file_extension@,
            options: list_view(self.options),
            ignore_patterns: list_view(self.ignore_patterns),
            metadata: metadata_view(self.metadata),
        }
    }
}

/// A profile as the store keeps it: one row, its list fields written as
/// lines of one text, absent where the list is.
pub struct ProfileRow {
    pub id: u32,
    pub engine: String,
    pub source_root: String,
    pub source_file_extension: String,
    pub output_root: String,
    pub output_file_extension: String,
    pub options: Option<String>,
    pub ignore_patterns: Option<String>,
}

/// Whether `name` names a column of a stored profile that holds text.
pub open spec fn is_column_name(name: Seq<char>) -> bool {
    ||| name == "engine"@
    ||| name == "source_root"@
    ||| name == "source_file_extension"@
    ||| name == "output_root"@
    ||| name == "output_file_extension"@
    ||| name == "options"@
    ||| name == "ignore_patterns"@
}

impl ProfileRow {
    /// Decides whether `name` names a column of a stored profile that holds
    /// text. Only such a name can stand in a request for the values of a
    /// column.
    pub fn is_column(name: &str) -> (known: bool)
        ensures
            known == is_column_name(name@),
    {
        same_text(name, "engine") || same_text(name, "source_root") || same_text(
            name,
            "source_file_extension",
        ) || same_text(name, "output_root") || same_text(name, "output_file_extension")
            || same_text(name, "options") || same_text(name, "ignore_patterns")
    }

    /// Whether this row is the one that stores `profile`: the same identity
    /// and texts, and each list written as lines.
    pub open spec fn stores(self, profile: ProfileView) -> bool {
        &&& self.id == profile.id
        &&& self.engine@ == profile.engine
        &&& self.source_root@ == profile.source_root
        &&& self.source_file_extension@ == profile.source_file_extension
        &&& self.output_root@ == profile.output_root
        &&& self.output_file_extension@ == profile.output_file_extension
        &&& text_of(self.options) == field_of(profile.options)
        &&& text_of(self.ignore_patterns) == field_of(profile.ignore_patterns)
    }
}

/// The list that a stored field holds: none for an absent or empty field,
/// else the lines of its text.
pub open spec fn list_of(field: Option<Seq<char>>) -> Option<Seq<Seq<char>>> {
    match field {
        Some(text) => if text.len() == 0 {
            None
        } else {
            Some(lines_of(text))
        },
        None => None,
    }
}

/// The field that stores a list: its items as lines, absent for no list.
pub open spec fn field_of(list: Option<Seq<Seq<char>>>) -> Option<Seq<char>> {
    match list {
        Some(items) => Some(joined(items)),
        None => None,
    }
}

/// A list that reads back from its text is stored and read without change;
/// so is the absent list.
pub proof fn lemma_stored_list_reads_back(list: Option<Seq<Seq<char>>>)
    requires
        list matches Some(items) ==> reads_back(items),
    ensures
        list_of(field_of(list)) == list,
{
    if let Some(items) = list {
        lemma_lines_of_joined(items);
    }
}

/// The metadata that a profile gets from the rows stored for it: none while
/// there is no row.
pub open spec fn metadata_of(rows: Seq<MetadataEntry>) -> Option<Map<Seq<char>, i64>> {
    if rows.len() == 0 {
        None
    } else {
        Some(rows_map(rows))
    }
}

/// Reads a list out of the text of a form field or of a stored column.
pub fn parse_list(text: &str) -> (list: Option<Vec<String>>)
    ensures
        list_view(list) == list_of(Some(text@)),
{
    if text.unicode_len() == 0 {
        None
    } else {
        Some(split_lines(text))
    }
}

/// Reads a list out of a stored field.
pub fn parse_field(field: &Option<String>) -> (list: Option<Vec<String>>)
    ensures
        list_view(list) == list_of(text_of(*field)),
{
    match field {
        Some(text) => parse_list(text.as_str()),
        None => None,
    }
}

/// Writes a list as a stored field.
pub fn flatten_list(list: &Option<Vec<String>>) -> (field: Option<String>)
    ensures
        text_of(field) == field_of(list_view(*list)),
{
    match list {
        Some(items) => Some(join_lines(items)),
        None => None,
    }
}

impl Profile {
    /// A profile as a front end defines it: its list fields given as texts of
    /// lines, no identity from the store yet (`id` is 0) and no metadata.
    pub fn new(
        engine: &str,
        source_root: &str,
        source_file_extension: &str,
        output_root: &str,
        output_file_extension: &str,
        options: &str,
        ignore_patterns: &str,
    ) -> (profile: Profile)
        ensures
            profile@ == (ProfileView {
                id: 0,
                engine: engine@,
                source_root: source_root@,
                source_file_extension: source_file_extension@,
                output_root: output_root@,
                output_file_extension: output_file_extension@,
                options: list_of(Some(options@)),
                ignore_patterns: list_of(Some(ignore_patterns@)),
                metadata: None,
            }),
    {
        Profile {
            id: 0,
            engine: engine.to_owned(),
            source_root: source_root.to_owned(),
            source_file_extension: source_file_extension.to_owned(),
            output_root: output_root.to_owned(),
            output_file_extension: output_file_extension.to_owned(),
            options: parse_list(options),
            ignore_patterns: parse_list(ignore_patterns),
            metadata: None,
        }
    }

    /// The profile that a stored row and the metadata rows stored under its
    /// identity stand for.
    pub fn from_row(row: &ProfileRow, tracked_files: &Vec<MetadataEntry>) -> (profile: Profile)
        ensures
            profile@ == (ProfileView {
                id: row.id,
                engine: row.engine@,
                source_root: row.source_root@,
                source_file_extension: row.source_file_extension@,
                output_root: row.output_root@,
                output_file_extension: row.output_file_extension@,
                options: list_of(text_of(row.options)),
                ignore_patterns: list_of(text_of(row.ignore_patterns)),
                metadata: metadata_of(tracked_files@),
            }),
    {
        let metadata = if tracked_files.len() == 0 {
            None
        } else {
            Some(Metadata::from_rows(tracked_files))
        };
        Profile {
            id: row.id,
            engine: row.engine.clone(),
            source_root: row.source_root.clone(),
            source_file_extension: row.source_file_extension.clone(),
            output_root: row.output_root.clone(),
            output_file_extension: row.output_file_extension.clone(),
            options: parse_field(&row.options),
            ignore_patterns: parse_field(&row.ignore_patterns),
            metadata,
        }
    }

    /// The row that stores this profile. Metadata is stored apart from it.
    pub fn to_row(&self) -> (row: ProfileRow)
        ensures
            row.stores(self@),
    {
        ProfileRow {
            id: self.id,
            engine: self.engine.clone(),
            source_root: self.source_root.clone(),
            source_file_extension: self.source_file_extension.clone(),
            output_root: self.output_root.clone(),
            output_file_extension: self.output_file_extension.clone(),
            options: flatten_list(&self.options),
            ignore_patterns: flatten_list(&self.ignore_patterns),
        }
    }

    /// The modification time that `source_file` had at its last successful
    /// conversion under this profile, if it was ever converted.
    pub open spec fn last_converted(self, source_file: Seq<char>) -> Option<i64> {
        match self@.metadata {
            Some(m) => if m.contains_key(source_file) {
                Some(m[source_file])
            } else {
                None
            },
            None => None,
        }
    }

    /// Looks `source_file` up in the metadata.
    pub fn tracked_mtime(&self, source_file: &str) -> (mtime: Option<i64>)
        ensures
            mtime == self.last_converted(source_file@),
    {
        match &self.metadata {
            Some(m) => m.get(source_file),
            None => None,
        }
    }

    /// Notes that `source_file` was converted when its modification time was
    /// `mtime`. Its entry is made or renewed; nothing else changes. Noting a
    /// file below the source root keeps the metadata below the source root.
    pub fn record_conversion(&mut self, source_file: &str, mtime: i64)
        ensures
            old(self)@.metadata_below_root() && relative_to(old(self)@.source_root, source_file@)
                is Some ==> final(self)@.metadata_below_root(),
            final(self)@ == (ProfileView {
                metadata: Some(
                    match old(self)@.metadata {
                        Some(m) => m.insert(source_file@, mtime),
                        None => Map::<Seq<char>, i64>::empty().insert(source_file@, mtime),
                    },
                ),
                ..old(self)@
            }),
    {
        let mut metadata = match self.metadata.take() {
            Some(m) => m,
            None => Metadata::new(),
        };
        metadata.upsert(source_file, mtime);
        self.metadata = Some(metadata);
    }
}

} // verus!
