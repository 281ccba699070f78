//! Writing tag bindings into the human-edited configuration document: the edit
//! works on the document's own tree, so that comments, formatting and the other
//! entries stay as they were.
use vstd::prelude::*;

use crate::command::{format_spec, Command};
use crate::library::{after_last, suffix_start};
use crate::tag::TagId;
use crate::text::{chars_of, push_char, push_str, string_of};

verus! {

#[verifier::external_type_specification]
#[verifier::external_body]
pub struct ExDocumentMut(toml_edit::DocumentMut);

#[verifier::external_type_specification]
#[verifier::external_body]
pub struct ExTomlError(toml_edit::TomlError);

/// The string entries of the document's `[tags]` table, by key; empty when there is
/// no such table.
pub uninterp spec fn tag_entries(doc: toml_edit::DocumentMut) -> Map<Seq<char>, Seq<char>>;

/// The document was read from TOML text, and changed since only through the `[tags]`
/// edits below; its text is then TOML again.
pub uninterp spec fn from_text(doc: toml_edit::DocumentMut) -> bool;

/// The document's `tags` key is absent or holds a table.
pub uninterp spec fn tags_writable(doc: toml_edit::DocumentMut) -> bool;

/// Whether `text` is a TOML document that toml_edit reads.
pub uninterp spec fn toml_parses(text: Seq<char>) -> bool;

/// The string entries of the `[tags]` table of the TOML document `text`, by key.
pub uninterp spec fn toml_tag_entries(text: Seq<char>) -> Map<Seq<char>, Seq<char>>;

/// The `tags` key of the TOML document `text` is absent or holds a table.
pub uninterp spec fn toml_tags_writable(text: Seq<char>) -> bool;

/// Relies on `toml_edit::DocumentMut`'s `FromStr`: parses a whole TOML document,
/// failing exactly on text that is not TOML; the document holds what the text says.
#[verifier::external_body]
fn parse_document(text: &str) -> (r: Result<toml_edit::DocumentMut, toml_edit::TomlError>)
    ensures
        r is Ok <==> toml_parses(text@),
        r matches Ok(d) ==> from_text(d) && tag_entries(d) == toml_tag_entries(text@)
            && tags_writable(d) == toml_tags_writable(text@),
{
    text.parse::<toml_edit::DocumentMut>()
}

/// Relies on `toml_edit::Table::entry` with `Entry::or_insert_with(toml_edit::table)`,
/// which adds an empty `tags` table when there is none, then `Item::as_table_mut`,
/// `Table::get_mut` and `Table::insert` on it: an existing value for `key` is replaced
/// in place, otherwise the key is added, and no other key is touched.
#[verifier::external_body]
fn put_tag(doc: &mut toml_edit::DocumentMut, key: &str, text: &str) -> (ok: bool)
    ensures
        ok == tags_writable(*old(doc)),
        ok ==> tag_entries(*final(doc)) == tag_entries(*old(doc)).insert(key@, text@),
        !ok ==> *final(doc) == *old(doc),
        from_text(*old(doc)) ==> from_text(*final(doc)),
{
    let tags = doc.as_table_mut().entry("tags").or_insert_with(toml_edit::table);
    let Some(tags) = tags.as_table_mut() else {
        return false;
    };
    match tags.get_mut(key) {
        Some(existing) => match existing.as_value_mut() {
            Some(v) => *v = toml_edit::Value::from(text),
            None => *existing = toml_edit::value(text),
        },
        None => {
            tags.insert(key, toml_edit::value(text));
        },
    }
    true
}

/// Relies on `toml_edit::Table::entry` with `Entry::or_insert_with(toml_edit::table)`,
/// then `Item::as_table_mut` and `Table::remove` on the `tags` table: only `key` goes.
#[verifier::external_body]
fn drop_tag(doc: &mut toml_edit::DocumentMut, key: &str) -> (ok: bool)
    ensures
        ok == tags_writable(*old(doc)),
        ok ==> tag_entries(*final(doc)) == tag_entries(*old(doc)).remove(key@),
        !ok ==> *final(doc) == *old(doc),
        from_text(*old(doc)) ==> from_text(*final(doc)),
{
    let tags = doc.as_table_mut().entry("tags").or_insert_with(toml_edit::table);
    let Some(tags) = tags.as_table_mut() else {
        return false;
    };
    tags.remove(key);
    true
}

/// Relies on `DocumentMut`'s `Display`: a document read from text and edited only
/// through `Table` calls is written as TOML text, each key and value on a line of its
/// own, which toml_edit reads back to the same entries.
#[verifier::external_body]
fn document_text(doc: &toml_edit::DocumentMut) -> (r: String)
    requires
        from_text(*doc),
    ensures
        toml_parses(r@),
        toml_tag_entries(r@) == tag_entries(*doc),
{
    doc.to_string()
}

/// Why a tag binding could not be written.
#[derive(Debug)]
pub enum BindingError {
    /// The document is not valid TOML.
    Parse(toml_edit::TomlError),
    /// The document has a `tags` key that is not a table.
    TagsNotATable,
}

/// The `[tags]` entries after binding `id` to `command`, or removing its binding.
pub open spec fn bound_entries(
    before: Map<Seq<char>, Seq<char>>,
    id: TagId,
    command: Option<Command>,
) -> Map<Seq<char>, Seq<char>> {
    match command {
        Some(c) => before.insert(id.hex(), format_spec(c@)),
        None => before.remove(id.hex()),
    }
}

/// Binding a tag, or removing its binding, touches the `[tags]` entry under that
/// tag's key only: every other key keeps its entry, or its absence; the tag's key
/// then holds the command's text, or nothing.
pub proof fn lemma_binding_edit_is_local(
    before: Map<Seq<char>, Seq<char>>,
    id: TagId,
    command: Option<Command>,
    key: Seq<char>,
)
    requires
        key != id.hex(),
    ensures
        bound_entries(before, id, command).contains_key(key) == before.contains_key(key),
        before.contains_key(key) ==> bound_entries(before, id, command)[key] == before[key],
        command is None ==> !bound_entries(before, id, command).contains_key(id.hex()),
        command matches Some(c) ==> bound_entries(before, id, command).contains_key(id.hex())
            && bound_entries(before, id, command)[id.hex()] == format_spec(c@),
{
}

/// Writes the binding of `id` into the document: the command's text under the tag's
/// hex key in `[tags]`, created if missing, or no entry when `command` is `None`.
/// It fails, leaving the document as it was, exactly when `tags` is not a table.
pub fn set_tag_binding(
    doc: &mut toml_edit::DocumentMut,
    id: TagId,
    command: Option<&Command>,
) -> (r: Result<(), BindingError>)
    ensures
        r is Ok <==> tags_writable(*old(doc)),
        r is Ok ==> tag_entries(*final(doc)) == bound_entries(
            tag_entries(*old(doc)),
            id,
            match command {
                Some(c) => Some(*c),
                None => None,
            },
        ),
        r is Err ==> r->Err_0 is TagsNotATable && *final(doc) == *old(doc),
        from_text(*old(doc)) ==> from_text(*final(doc)),
{
    let key = id.to_string();
    let ok = match command {
        Some(c) => {
            let text = c.to_string();
            put_tag(doc, key.as_str(), text.as_str())
        },
        None => drop_tag(doc, key.as_str()),
    };
    if ok {
        Ok(())
    } else {
        Err(BindingError::TagsNotATable)
    }
}

/// The configuration text after writing the binding of `id` into it. It fails when the
/// text is not TOML, or when its `tags` key is not a table.
pub fn edit_tag_binding(config_raw: &str, id: TagId, command: Option<&Command>) -> (r: Result<
    String,
    BindingError,
>)
    ensures
        r is Ok <==> toml_parses(config_raw@) && toml_tags_writable(config_raw@),
        r matches Err(e) ==> (e is Parse <==> !toml_parses(config_raw@)),
        r matches Ok(t) ==> toml_parses(t@) && toml_tag_entries(t@) == bound_entries(
            toml_tag_entries(config_raw@),
            id,
            match command {
                Some(c) => Some(*c),
                None => None,
            },
        ),
{
    let mut doc = match parse_document(config_raw) {
        Ok(d) => d,
        Err(e) => {
            return Err(BindingError::Parse(e));
        },
    };
    match set_tag_binding(&mut doc, id, command) {
        Ok(()) => Ok(document_text(&doc)),
        Err(e) => Err(e),
    }
}

/// The last segment of a path; `config.toml` when that is empty.
pub open spec fn file_name_or_default(path: Seq<char>) -> Seq<char> {
    let name = after_last(path, '/');
    if name.len() == 0 {
        seq!['c', 'o', 'n', 'f', 'i', 'g', '.', 't', 'o', 'm', 'l']
    } else {
        name
    }
}

/// The name of the backup copy of the configuration taken at `timestamp`: the
/// configuration's file name, a dot, and the timestamp.
pub fn backup_file_name(config_path: &str, timestamp: &str) -> (r: String)
    ensures
        r@ == file_name_or_default(config_path@) + seq!['.'] + timestamp@,
{
    let v = chars_of(config_path);
    let n = v.len();
    assert(v@.subrange(0, n as int) =~= config_path@);
    let j = suffix_start(&v, 0, n, '/');
    let mut r = if j == n {
        let d = "config.toml".to_owned();
        proof {
            reveal_strlit("config.toml");
        }
        assert(d@ =~= seq!['c', 'o', 'n', 'f', 'i', 'g', '.', 't', 'o', 'm', 'l']);
        d
    } else {
        string_of(&v, j, n)
    };
    push_char(&mut r, '.');
    push_str(&mut r, timestamp);
    r
}

/// `dir` joined with a file name, with one `/` between them.
pub open spec fn joined(dir: Seq<char>, name: Seq<char>) -> Seq<char> {
    if dir.len() > 0 && dir.last() == '/' {
        dir + name
    } else {
        dir + seq!['/'] + name
    }
}

/// A file operation, for the caller to carry out in order.
#[derive(Debug, PartialEq, Eq)]
pub enum FileOp {
    CreateDir { path: String },
    Copy { from: String, to: String },
    Write { path: String, text: String },
}

/// The backup steps before an edit of the configuration at `config_path`: none
/// without a backup directory; otherwise create it, and copy the configuration
/// into it under the name that `timestamp` gives.
pub open spec fn backup_steps(
    config_path: Seq<char>,
    backup_dir: Option<Seq<char>>,
    timestamp: Seq<char>,
) -> Seq<(Seq<char>, Seq<char>)> {
    match backup_dir {
        None => Seq::empty(),
        Some(d) => seq![
            (d, Seq::empty()),
            (config_path, joined(d, file_name_or_default(config_path) + seq!['.'] + timestamp)),
        ],
    }
}

/// The operations that write the binding of `id` into the configuration at
/// `config_path`, whose text is `config_raw`: the backup, when a backup directory
/// is given, then the edited text written over the configuration. The backup comes
/// first, so that the previous configuration survives a failed write.
pub fn persist_steps(
    config_path: &str,
    backup_dir: Option<&str>,
    timestamp: &str,
    config_raw: &str,
    id: TagId,
    command: Option<&Command>,
) -> (r: Result<Vec<FileOp>, BindingError>)
    ensures
        r is Ok <==> toml_parses(config_raw@) && toml_tags_writable(config_raw@),
        r matches Err(e) ==> (e is Parse <==> !toml_parses(config_raw@)),
        r matches Ok(ops) ==> {
            let n = ops@.len();
            let backup = backup_steps(
                config_path@,
                match backup_dir {
                    Some(d) => Some(d@),
                    None => None,
                },
                timestamp@,
            );
            &&& n == backup.len() + 1
            &&& backup.len() == 2 ==> (ops@[0] matches FileOp::CreateDir { path } && path@
                == backup[0].0)
            &&& backup.len() == 2 ==> (ops@[1] matches FileOp::Copy { from, to } && from@
                == backup[1].0 && to@ == backup[1].1)
            &&& ops@[n - 1] matches FileOp::Write { path, text } && path@ == config_path@
                && toml_parses(text@) && toml_tag_entries(text@) == bound_entries(
                toml_tag_entries(config_raw@),
                id,
                match command {
                    Some(c) => Some(*c),
                    None => None,
                },
            )
        },
{
    let text = match edit_tag_binding(config_raw, id, command) {
        Ok(t) => t,
        Err(e) => {
            return Err(e);
        },
    };
    let mut ops: Vec<FileOp> = Vec::new();
    match backup_dir {
        Some(d) => {
            let name = backup_file_name(config_path, timestamp);
            let dir = d.to_owned();
            let v = chars_of(d);
            let mut to = d.to_owned();
            if v.len() == 0 || v[v.len() - 1] != '/' {
                push_char(&mut to, '/');
            }
            assert(v@.len() > 0 ==> v@.last() == v@[v.len() - 1]);
            push_str(&mut to, name.as_str());
            ops.push(FileOp::CreateDir { path: dir });
            ops.push(FileOp::Copy { from: config_path.to_owned(), to });
        },
        None => {},
    }
    ops.push(FileOp::Write { path: config_path.to_owned(), text });
    Ok(ops)
}

} // verus!
