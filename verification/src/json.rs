//! JSON forms of RPG Maker data files (`rxdata`, `rvdata`, `rvdata2`): a
//! Marshal stream turned into JSON text, and JSON text turned back into a
//! Marshal stream.
use vstd::prelude::*;
use crate::scripts::{all_decode, decoded_scripts_text, entries_view, entry_view, script_entries_text, ScriptEntry};
use crate::stream::{item_bytes, item_int, load_stream, marshal_item_bytes, marshal_item_int, marshal_root_len, root_len, LoadedStream};
use crate::text::{chars_of, extension_of, file_extension, has_prefix, starts_with, str_equals, with_extension, with_extension_of};
use vstd::string::StringSliceAdditionalSpecFns;

verus! {

#[verifier::external_type_specification]
#[verifier::external_body]
pub struct ExReadError(marshal_rs::ReadError);

#[verifier::external_type_specification]
#[verifier::external_body]
pub struct ExJsonError(serde_json::Error);

#[verifier::external_type_specification]
#[verifier::external_body]
pub struct ExPathBuf(std::path::PathBuf);

#[verifier::external_type_specification]
#[verifier::external_body]
pub struct ExIoError(std::io::Error);

/// Whether `bytes` is a well-formed Marshal 4.8 stream, as `marshal_rs::load`
/// judges it.
pub uninterp spec fn marshal_loads(bytes: Seq<u8>) -> bool;

/// Whether the value that the Marshal stream `bytes` holds has a JSON form:
/// `serde_json::to_string_pretty` refuses values nested too deeply or
/// expanding too far.
pub uninterp spec fn marshal_has_json(bytes: Seq<u8>) -> bool;

/// The pretty-printed JSON text of the value that the Marshal stream `bytes`
/// holds.
pub uninterp spec fn marshal_json(bytes: Seq<u8>) -> Seq<char>;

/// Whether `text` is JSON that `serde_json` reads into a `marshal_rs::Arena`.
pub uninterp spec fn arena_json_parses(text: Seq<char>) -> bool;

/// The Marshal stream of the value that the JSON text `text` describes.
pub uninterp spec fn json_marshal(text: Seq<char>) -> Seq<u8>;

/// The longest payload that a Marshal value can hold: its lengths are
/// packed `i32`s.
pub open spec fn max_payload() -> nat {
    0x7fff_ffff
}

/// `marshal_rs::load` followed by `serde_json::to_string_pretty` on the
/// loaded arena. Claimed: loading fails exactly on the streams that
/// `marshal_loads` refuses; printing then fails exactly where
/// `marshal_has_json` says so; and the text is `marshal_json` of the bytes.
/// All three depend on the bytes alone.
#[verifier::external_body]
fn marshal_to_json(bytes: &[u8]) -> (r: Result<String, DataError>)
    ensures
        r is Ok <==> (marshal_loads(bytes@) && marshal_has_json(bytes@)),
        r is Ok ==> r->Ok_0@ == marshal_json(bytes@),
        r is Err ==> (r->Err_0 is MarshalLoad <==> !marshal_loads(bytes@)),
        r is Err ==> (r->Err_0 is JsonParse <==> marshal_loads(bytes@)),
{
    match marshal_rs::load(bytes) {
        Ok(arena) => match serde_json::to_string_pretty(&arena) {
            Ok(text) => Ok(text),
            Err(e) => Err(DataError::JsonParse(e)),
        },
        Err(e) => Err(DataError::MarshalLoad(e)),
    }
}

/// `serde_json::from_str` into a `marshal_rs::Arena`, followed by
/// `marshal_rs::dump` of that arena. Claimed: parsing succeeds exactly on
/// the texts that `arena_json_parses` accepts, and the bytes are
/// `json_marshal` of the text; dumping cannot fail. The arena panics on a
/// string or byte payload longer than `i32::MAX` bytes, so the text, whose
/// payloads are never longer than itself, is kept within that bound.
#[verifier::external_body]
fn json_to_marshal(text: &str) -> (r: Result<Vec<u8>, serde_json::Error>)
    requires
        text.spec_bytes().len() <= max_payload(),
    ensures
        r is Ok <==> arena_json_parses(text@),
        r is Ok ==> r->Ok_0@ == json_marshal(text@),
{
    match serde_json::from_str::<marshal_rs::Arena<'static>>(text) {
        Ok(arena) => Ok(marshal_rs::dump(&arena)),
        Err(e) => Err(e),
    }
}

/// The script stored at index `i` of the stream `bytes`: element `i` of the
/// root is an array whose first three elements are an integer (the magic
/// number), a string (the name) and a string (the compressed code).
pub open spec fn stored_script(bytes: Seq<u8>, i: int) -> Option<(i64, Seq<u8>, Seq<u8>)> {
    match (marshal_item_int(bytes, i, 0), marshal_item_bytes(bytes, i, 1), marshal_item_bytes(bytes, i, 2)) {
        (Some(n), Some(name), Some(code)) => Some((n, name, code)),
        _ => None,
    }
}

/// Every element of the root of the stream `bytes` is a stored script.
pub open spec fn stream_holds_scripts(bytes: Seq<u8>) -> bool {
    forall|i: int| 0 <= i < marshal_root_len(bytes) ==> #[trigger] stored_script(bytes, i) is Some
}

/// The scripts stored in the stream `bytes`, in order.
pub open spec fn stored_scripts(bytes: Seq<u8>) -> Seq<(i64, Seq<u8>, Seq<u8>)> {
    Seq::new(marshal_root_len(bytes), |i: int| stored_script(bytes, i)->0)
}

/// The `Scripts` file `bytes` can be turned into text: it loads, it holds
/// scripts, and every script decodes.
pub open spec fn scripts_file_decodes(bytes: Seq<u8>) -> bool {
    &&& marshal_loads(bytes)
    &&& stream_holds_scripts(bytes)
    &&& all_decode(stored_scripts(bytes))
}

/// The scripts stored in the loaded stream `s`, in order; `None` when an
/// element of its root is not a stored script.
fn script_entries(s: &LoadedStream<'_>) -> (r: Option<Vec<ScriptEntry>>)
    ensures
        r is Some <==> stream_holds_scripts(s.source()),
        r matches Some(es) ==> entries_view(es@) == stored_scripts(s.source()),
{
    let ghost b = s.source();
    let n = root_len(s);
    let mut entries: Vec<ScriptEntry> = Vec::new();
    let mut i: usize = 0;
    while i < n
        invariant
            n == marshal_root_len(b),
            b == s.source(),
            i <= n,
            entries@.len() == i,
            forall|j: int| 0 <= j < i ==> #[trigger] stored_script(b, j) is Some,
            forall|j: int| 0 <= j < i ==> stored_script(b, j) == Some(entry_view(#[trigger] entries@[j])),
        decreases n - i,
    {
        let number = item_int(s, i, 0);
        let name = item_bytes(s, i, 1);
        let code = item_bytes(s, i, 2);
        match (number, name, code) {
            (Some(number), Some(name), Some(code)) => {
                let e = ScriptEntry { number, name, code };
                assert(stored_script(b, i as int) == Some(entry_view(e)));
                entries.push(e);
                i = i + 1;
            },
            _ => {
                assert(stored_script(b, i as int) is None);
                return None;
            },
        }
    }
    assert(entries_view(entries@) =~= stored_scripts(b)) by {
        assert forall|j: int| 0 <= j < n implies entries_view(entries@)[j] == stored_scripts(b)[j] by {
            assert(stored_script(b, j) == Some(entry_view(entries@[j])));
        }
    }
    Some(entries)
}

/// The text form of the `Scripts` data file `file_content`.
fn scripts_file_text(file_content: &[u8]) -> (r: Result<String, DataError>)
    ensures
        (r matches Err(DataError::MarshalLoad(_))) <==> !marshal_loads(file_content@),
        (r is Ok) <==> scripts_file_decodes(file_content@),
        (r matches Err(DataError::InvalidScripts)) <==> (marshal_loads(file_content@)
            && !scripts_file_decodes(file_content@)),
        r matches Ok(t) ==> t@ == decoded_scripts_text(stored_scripts(file_content@)),
{
    let stream = match load_stream(file_content) {
        Ok(s) => s,
        Err(e) => return Err(DataError::MarshalLoad(e)),
    };
    let entries = match script_entries(&stream) {
        Some(e) => e,
        None => return Err(DataError::InvalidScripts),
    };
    match script_entries_text(&entries) {
        Some(text) => Ok(text),
        None => Err(DataError::InvalidScripts),
    }
}

/// The errors of reading and writing game data.
pub enum DataError {
    /// An I/O operation on the path failed.
    Io(std::path::PathBuf, std::io::Error),
    /// The bytes are not a Marshal stream.
    MarshalLoad(marshal_rs::ReadError),
    /// The text is not the JSON form of a Marshal stream, or a stream has no
    /// JSON form.
    JsonParse(serde_json::Error),
    /// A `Scripts` file is not an array of scripts, each a magic number
    /// that fits in an `i32`, a name, and code that inflates.
    InvalidScripts,
    /// No game title was found in `Game.ini` or the system file.
    NoTitle,
    /// The mode needs existing translation, and none was given.
    NoTranslation,
}

/// `Scripts`, which opens the name of a scripts file.
pub open spec fn scripts_prefix() -> Seq<char> {
    seq!['S', 'c', 'r', 'i', 'p', 't', 's']
}

/// Generating a JSON form skips a file whose output already exists, unless
/// `force` is set.
pub fn skips_generation(force: bool, exists: bool) -> (r: bool)
    ensures
        r == (!force && exists),
{
    !force && exists
}

/// The extension of the generated form of the file `filename`: `rb` for a
/// `Scripts` file, `json` for any other.
pub open spec fn generated_extension(filename: Seq<char>) -> Seq<char> {
    if starts_with(filename, scripts_prefix()) {
        seq!['r', 'b']
    } else {
        seq!['j', 's', 'o', 'n']
    }
}

/// The name of the generated form of the file `filename`.
pub fn generated_name(filename: &str) -> (r: String)
    ensures
        r@ == with_extension(filename@, generated_extension(filename@)),
{
    proof {
        reveal_strlit("Scripts");
        reveal_strlit("rb");
        reveal_strlit("json");
        assert("Scripts"@ =~= scripts_prefix());
        assert("rb"@ =~= seq!['r', 'b']);
        assert("json"@ =~= seq!['j', 's', 'o', 'n']);
    }
    let cs = chars_of(filename);
    if has_prefix(cs.as_slice(), "Scripts") {
        with_extension_of(filename, "rb")
    } else {
        with_extension_of(filename, "json")
    }
}

/// A file that `write` takes: one whose extension is `json` or `rb`.
pub open spec fn is_generated_form(filename: Seq<char>) -> bool {
    extension_of(filename) == Some(seq!['j', 's', 'o', 'n']) || extension_of(filename) == Some(
        seq!['r', 'b'],
    )
}

/// Whether `write` takes the file `filename`.
pub fn is_generated_file(filename: &str) -> (r: bool)
    ensures
        r == is_generated_form(filename@),
{
    proof {
        reveal_strlit("rb");
        reveal_strlit("json");
        assert("rb"@ =~= seq!['r', 'b']);
        assert("json"@ =~= seq!['j', 's', 'o', 'n']);
    }
    match file_extension(filename) {
        Some(ext) => str_equals(ext.as_str(), "json") || str_equals(ext.as_str(), "rb"),
        None => false,
    }
}

/// The generated form of the RPG Maker data file `file_content` named
/// `filename`.
///
/// A file whose name starts with `Scripts` holds an array of scripts, each a
/// magic number, a name and zlib-compressed Ruby code (`stored_scripts`); its
/// form is the text of `scripts::scripts_to_text` of the decoded scripts
/// (`decoded_scripts_text`). Any other file's
/// form is the pretty-printed JSON text of the value its Marshal stream
/// holds.
pub fn generate_file(file_content: &[u8], filename: &str) -> (r: Result<String, DataError>)
    ensures
        r matches Err(DataError::MarshalLoad(_)) <==> !marshal_loads(file_content@),
        !starts_with(filename@, scripts_prefix()) ==> {
            &&& (r matches Err(DataError::JsonParse(_))) <==> (marshal_loads(file_content@)
                && !marshal_has_json(file_content@))
            &&& (r is Ok) <==> (marshal_loads(file_content@) && marshal_has_json(file_content@))
            &&& (r matches Ok(t) ==> t@ == marshal_json(file_content@))
        },
        starts_with(filename@, scripts_prefix()) ==> {
            &&& (r is Ok) <==> scripts_file_decodes(file_content@)
            &&& (r matches Err(DataError::InvalidScripts)) <==> (marshal_loads(file_content@)
                && !scripts_file_decodes(file_content@))
            &&& (r matches Ok(t) ==> t@ == decoded_scripts_text(stored_scripts(file_content@)))
        },
{
    proof {
        reveal_strlit("Scripts");
        assert("Scripts"@ =~= scripts_prefix());
    }
    let cs = chars_of(filename);
    if has_prefix(cs.as_slice(), "Scripts") {
        scripts_file_text(file_content)
    } else {
        marshal_to_json(file_content)
    }
}

/// The Marshal stream of the JSON form `file_content` made by
/// `generate_file`.
pub fn write_file(file_content: &str) -> (r: Result<Vec<u8>, DataError>)
    requires
        file_content.spec_bytes().len() <= max_payload(),
    ensures
        r is Ok <==> arena_json_parses(file_content@),
        r matches Ok(b) ==> b@ == json_marshal(file_content@),
        r is Err ==> r matches Err(DataError::JsonParse(_)),
{
    match json_to_marshal(file_content) {
        Ok(bytes) => Ok(bytes),
        Err(e) => Err(DataError::JsonParse(e)),
    }
}

} // verus!
