//! Input validation and name handling for the dsh ↔ Codex session adapter.
use vstd::prelude::*;

use crate::json::{opt_chars, opt_str_chars, JsonValue};
use crate::paths::{file_name_of, portable_path};
use crate::text::{
    ascii_lowercase, chars_of, concat, decimal, decimal_chars, decimal_padded2, is_ascii_alnum,
    is_ascii_digit, is_ascii_digit_char, lowercase_ascii, push_char, split_words, str_eq,
    string_of, take_chars, trim, trimmed, utf8_len, words,
};

verus! {

broadcast use vstd::string::group_string_axioms;

/// The Codex CLI release the desktop pins.
pub const CODEX_CLI_VERSION: &'static str = "0.147.0";

/// The dsh release the desktop bundles.
pub const DSH_VERSION: &'static str = "0.1.0-rc.6";

pub const MAX_SESSION_ID_LEN: usize = 256;

pub const MAX_PROMPT_LEN: usize = 200_000;

pub const MAX_CONTEXT_LEN: usize = 400_000;

pub const MAX_SESSION_EVENTS: usize = 1_000;

pub const MAX_SESSION_MESSAGES: usize = 200;

pub const MAX_MODEL_ID_LEN: usize = 128;

pub const MAX_ATTACHMENTS: usize = 10;

pub const MAX_ATTACHMENT_BYTES: usize = 20 * 1024 * 1024;

pub const MAX_ATTACHMENTS_BYTES: usize = 50 * 1024 * 1024;

pub const MAX_GOAL_OBJECTIVE_LEN: usize = 4_000;

/// The collaboration mode of a session that never chose one.
pub fn default_collaboration_mode() -> (r: String)
    ensures
        r@ == "default"@,
{
    "default".to_string()
}

/// A character allowed in a dsh session id.
pub open spec fn session_id_char(c: char) -> bool {
    is_ascii_alnum(c) || c == '-' || c == '_' || c == '.' || c == ':'
}

/// A dsh session id: 1 to 256 bytes of ASCII letters, digits and `-_.:`.
pub open spec fn valid_session_id(s: Seq<char>) -> bool {
    &&& s.len() > 0
    &&& utf8_len(s) <= MAX_SESSION_ID_LEN
    &&& forall|i: int| 0 <= i < s.len() ==> session_id_char(#[trigger] s[i])
}

/// A session id is accepted exactly when it is 1 to 256 bytes long and
/// every character is an ASCII letter, an ASCII digit, `-`, `_`, `.` or `:`.
pub proof fn law_session_id_characters(s: Seq<char>)
    ensures
        valid_session_id(s) <==> {
            &&& s.len() > 0
            &&& utf8_len(s) <= 256
            &&& forall|i: int|
                0 <= i < s.len() ==> {
                    let c = #[trigger] s[i];
                    ||| 'a' <= c <= 'z'
                    ||| 'A' <= c <= 'Z'
                    ||| '0' <= c <= '9'
                    ||| c == '-'
                    ||| c == '_'
                    ||| c == '.'
                    ||| c == ':'
                }
        },
{
}

/// Checks a dsh session id.
pub fn validate_session_id(session_id: &str) -> (r: Result<(), String>)
    ensures
        r is Ok <==> valid_session_id(session_id@),
        match r {
            Err(e) => e@ == "Invalid dsh session id"@,
            Ok(_) => true,
        },
{
    if session_id.is_empty() || session_id.len() > MAX_SESSION_ID_LEN {
        return Err("Invalid dsh session id".to_string());
    }
    let cs = chars_of(session_id);
    let mut i: usize = 0;
    while i < cs.len()
        invariant
            i <= cs@.len(),
            cs@ == session_id@,
            forall|k: int| 0 <= k < i ==> session_id_char(#[trigger] cs@[k]),
        decreases cs.len() - i,
    {
        let c = cs[i];
        if !(crate::text::is_ascii_alphanumeric(c) || c == '-' || c == '_' || c == '.' || c
            == ':') {
            return Err("Invalid dsh session id".to_string());
        }
        i = i + 1;
    }
    Ok(())
}

/// A byte allowed in a model id or reasoning effort.
pub open spec fn identifier_byte(b: u8) -> bool {
    (97u8 <= b && b <= 122u8) || (65u8 <= b && b <= 90u8) || (48u8 <= b && b <= 57u8) || b == 45u8
        || b == 95u8 || b == 46u8
}

/// A model id or reasoning effort: 1 to 128 bytes of ASCII letters, digits and `-_.`.
pub open spec fn valid_identifier(value: Seq<char>) -> bool {
    &&& value.len() > 0
    &&& vstd::utf8::encode_utf8(value).len() <= MAX_MODEL_ID_LEN
    &&& forall|i: int|
        0 <= i < vstd::utf8::encode_utf8(value).len() ==> identifier_byte(
            #[trigger] vstd::utf8::encode_utf8(value)[i],
        )
}

/// Checks a model id or reasoning effort; `label` names it in the error.
pub fn validate_short_identifier(label: &str, value: &str) -> (r: Result<(), String>)
    ensures
        r is Ok <==> valid_identifier(value@),
        match r {
            Err(e) => e@ == "Invalid Codex "@ + label@,
            Ok(_) => true,
        },
{
    if value.is_empty() || value.len() > MAX_MODEL_ID_LEN {
        return Err(concat("Invalid Codex ", label));
    }
    let bytes = value.as_bytes();
    let mut i: usize = 0;
    while i < bytes.len()
        invariant
            i <= bytes@.len(),
            bytes@ == vstd::utf8::encode_utf8(value@),
            forall|k: int| 0 <= k < i ==> identifier_byte(#[trigger] bytes@[k]),
        decreases bytes.len() - i,
    {
        let b = bytes[i];
        if !((97u8 <= b && b <= 122u8) || (65u8 <= b && b <= 90u8) || (48u8 <= b && b <= 57u8) || b
            == 45u8 || b == 95u8 || b == 46u8) {
            return Err(concat("Invalid Codex ", label));
        }
        i = i + 1;
    }
    Ok(())
}

/// The collaboration mode a request asks for: `default` unless given.
pub open spec fn requested_mode(value: Option<&str>) -> Seq<char> {
    match value {
        Some(m) => m@,
        None => "default"@,
    }
}

/// Checks the requested collaboration mode: only `default` and `plan`.
pub fn validate_collaboration_mode<'a>(value: Option<&'a str>) -> (r: Result<&'a str, String>)
    ensures
        r is Ok <==> (requested_mode(value) == "default"@ || requested_mode(value) == "plan"@),
        match r {
            Ok(m) => m@ == requested_mode(value),
            Err(e) => e@ == "Codex collaboration mode must be 'default' or 'plan'"@,
        },
{
    let mode: &'a str = match value {
        Some(m) => m,
        None => "default",
    };
    if str_eq(mode, "default") || str_eq(mode, "plan") {
        Ok(mode)
    } else {
        Err("Codex collaboration mode must be 'default' or 'plan'".to_string())
    }
}

/// Checks and trims a goal objective: not empty, at most 4,000 characters.
pub fn validate_goal_objective(value: &str) -> (r: Result<String, String>)
    ensures
        match r {
            Ok(o) => o@ == trimmed(value@) && 0 < trimmed(value@).len() <= MAX_GOAL_OBJECTIVE_LEN,
            Err(e) => (trimmed(value@).len() == 0 && e@ == "Goal objective must not be empty"@)
                || (trimmed(value@).len() > MAX_GOAL_OBJECTIVE_LEN && e@
                == "Goal objective cannot exceed 4,000 characters"@),
        },
{
    let objective = trim(value);
    let cs = chars_of(objective.as_str());
    if cs.len() == 0 {
        return Err("Goal objective must not be empty".to_string());
    }
    if cs.len() > MAX_GOAL_OBJECTIVE_LEN {
        return Err("Goal objective cannot exceed 4,000 characters".to_string());
    }
    Ok(objective)
}

/// Why a free-text input is refused, if it is: blank though required, or
/// longer than `max` bytes.
pub open spec fn text_problem(name: Seq<char>, value: Seq<char>, max: usize, allow_empty: bool) -> Option<
    Seq<char>,
> {
    if !allow_empty && trimmed(value).len() == 0 {
        Some(name + " must not be empty"@)
    } else if utf8_len(value) > max {
        Some(name + " is too large"@)
    } else {
        None
    }
}

/// Why a workspace path is refused, if it is.
pub open spec fn cwd_problem(cwd: Seq<char>, is_absolute: bool, is_dir: Option<bool>) -> Option<
    Seq<char>,
> {
    if utf8_len(cwd) > 32_768 {
        Some("Workspace path is too large"@)
    } else if !is_absolute {
        Some("Codex workspace must be an absolute path"@)
    } else if is_dir is None {
        Some("The dsh workspace is no longer available on this machine"@)
    } else if is_dir == Some(false) {
        Some("Codex workspace must be a directory"@)
    } else {
        None
    }
}

/// Checks a free-text input: non-blank unless `allow_empty`, at most `max` bytes.
pub fn validate_text(name: &str, value: &str, max: usize, allow_empty: bool) -> (r: Result<
    (),
    String,
>)
    ensures
        match r {
            Ok(_) => (allow_empty || trimmed(value@).len() > 0) && utf8_len(value@) <= max,
            Err(e) => if !allow_empty && trimmed(value@).len() == 0 {
                e@ == name@ + " must not be empty"@
            } else {
                utf8_len(value@) > max && e@ == name@ + " is too large"@
            },
        },
        match r {
            Ok(_) => text_problem(name@, value@, max, allow_empty) is None,
            Err(e) => text_problem(name@, value@, max, allow_empty) == Some(e@),
        },
{
    if !allow_empty {
        let t = trim(value);
        if t.as_str().is_empty() {
            return Err(concat(name, " must not be empty"));
        }
    }
    if value.len() > max {
        return Err(concat(name, " is too large"));
    }
    Ok(())
}

/// Checks a workspace path, given what the file system reports of it:
/// at most 32,768 bytes, absolute, an existing directory.
pub fn validate_cwd(cwd: &str, is_absolute: bool, is_dir: Option<bool>) -> (r: Result<
    String,
    String,
>)
    ensures
        match r {
            Ok(p) => p@ == cwd@ && utf8_len(cwd@) <= 32_768 && is_absolute && is_dir == Some(true),
            Err(e) => if utf8_len(cwd@) > 32_768 {
                e@ == "Workspace path is too large"@
            } else if !is_absolute {
                e@ == "Codex workspace must be an absolute path"@
            } else if is_dir is None {
                e@ == "The dsh workspace is no longer available on this machine"@
            } else {
                is_dir == Some(false) && e@ == "Codex workspace must be a directory"@
            },
        },
        match r {
            Ok(_) => cwd_problem(cwd@, is_absolute, is_dir) is None,
            Err(e) => cwd_problem(cwd@, is_absolute, is_dir) == Some(e@),
        },
{
    if cwd.len() > 32_768 {
        return Err("Workspace path is too large".to_string());
    }
    if !is_absolute {
        return Err("Codex workspace must be an absolute path".to_string());
    }
    match is_dir {
        None => Err("The dsh workspace is no longer available on this machine".to_string()),
        Some(false) => Err("Codex workspace must be a directory".to_string()),
        Some(true) => Ok(cwd.to_string()),
    }
}

/// The title kept for a thread: trimmed, non-empty, at most 120 characters.
pub open spec fn clean_title_of(title: Option<Seq<char>>) -> Option<Seq<char>> {
    match title {
        Some(t) => if trimmed(t).len() > 0 {
            Some(
                trimmed(t).take(
                    if trimmed(t).len() < 120 {
                        trimmed(t).len() as int
                    } else {
                        120
                    },
                ),
            )
        } else {
            None
        },
        None => None,
    }
}

/// Trims a session title and keeps at most its first 120 characters.
pub fn clean_title(title: Option<&str>) -> (r: Option<String>)
    ensures
        opt_chars(r) == clean_title_of(opt_str_chars(title)),
{
    match title {
        Some(t) => {
            let trimmed_title = trim(t);
            let cs = chars_of(trimmed_title.as_str());
            if cs.len() == 0 {
                None
            } else {
                Some(take_chars(&cs, 120))
            }
        },
        None => None,
    }
}

/// `char::is_alphanumeric`: the Unicode `Alphabetic` or `Numeric` property.
pub uninterp spec fn unicode_alphanumeric(c: char) -> bool;

/// `char::is_alphanumeric`; for ASCII it agrees with letters and digits.
#[verifier::external_body]
fn is_alphanumeric(c: char) -> (r: bool)
    ensures
        r == unicode_alphanumeric(c),
        (c as u32) < 128 ==> r == is_ascii_alnum(c),
{
    c.is_alphanumeric()
}

/// A name that the path functions of every platform read as one file name:
/// not empty, not `.` or `..`, and without `/`, `\` or `:`.
pub open spec fn plain_file_name(p: Seq<char>) -> bool {
    &&& p.len() > 0
    &&& p != "."@
    &&& p != ".."@
    &&& forall|i: int| 0 <= i < p.len() ==> p[i] != '/' && p[i] != '\\' && p[i] != ':'
}

/// The final component of a path (`Path::file_name`), when it is a name:
/// for a path that POSIX and Windows split alike, the last component as
/// `/` separates them (ignoring empty and `.` components), and `None` when
/// that is the root, a leading `.`, `..` or absent. A plain file name is its
/// own final component. For other paths the answer depends on the
/// platform's separators and prefixes, and is not stated.
#[verifier::external_body]
pub(crate) fn path_file_name(path: &str) -> (r: Option<String>)
    ensures
        plain_file_name(path@) ==> r is Some && r->0@ == path@,
        portable_path(path@) ==> opt_chars(r) == file_name_of(path@),
{
    std::path::Path::new(path).file_name().and_then(|n| n.to_str()).map(|n| n.to_string())
}

/// The character an attachment file name keeps: alphanumerics and `.-_ `;
/// anything else becomes `_`.
pub open spec fn attachment_char(c: char) -> char {
    let alnum = if (c as u32) < 128 {
        is_ascii_alnum(c)
    } else {
        unicode_alphanumeric(c)
    };
    if alnum || c == '.' || c == '-' || c == '_' || c == ' ' {
        c
    } else {
        '_'
    }
}

/// The stored name of attachment number `index` whose file name is
/// `file_name`: a two-digit index, a dash, and at most 120 kept characters.
pub open spec fn attachment_name_of(file_name: Option<Seq<char>>, index: nat) -> Option<
    Seq<char>,
> {
    let source = trimmed(
        match file_name {
            Some(f) => f,
            None => Seq::empty(),
        },
    );
    if source.len() == 0 || source == "."@ || source == ".."@ {
        None
    } else {
        let kept = source.take(if source.len() < 120 { source.len() as int } else { 120 });
        Some(decimal_padded2(index) + "-"@ + kept.map_values(|c: char| attachment_char(c)))
    }
}

/// The stored name of an attachment, from its file name as the path
/// functions of the platform report it.
pub fn attachment_name_from(file_name: Option<&str>, index: u64) -> (r: Result<String, String>)
    ensures
        match r {
            Ok(n) => attachment_name_of(opt_str_chars(file_name), index as nat) == Some(n@),
            Err(e) => attachment_name_of(opt_str_chars(file_name), index as nat) is None && e@
                == "An attachment has an invalid file name"@,
        },
{
    let source = match file_name {
        Some(f) => trim(f),
        None => String::new(),
    };
    let ghost src = source@;
    proof {
        reveal_strlit(".");
        reveal_strlit("..");
        if file_name is None {
            assert(trimmed(Seq::<char>::empty()) =~= Seq::<char>::empty());
        }
    }
    if source.as_str().is_empty() || str_eq(source.as_str(), ".") || str_eq(source.as_str(), "..") {
        return Err("An attachment has an invalid file name".to_string());
    }
    let cs = chars_of(source.as_str());
    let n = if cs.len() < 120 { cs.len() } else { 120 };
    let mut out = if index < 10 {
        "0".to_string()
    } else {
        String::new()
    };
    let digits = decimal_chars(index);
    let ds = string_of(&digits);
    crate::text::append_str(&mut out, ds.as_str());
    crate::text::append_str(&mut out, "-");
    let ghost prefix = out@;
    proof {
        reveal_strlit("0");
        assert(prefix == decimal_padded2(index as nat) + "-"@);
    }
    let mut i: usize = 0;
    while i < n
        invariant
            i <= n <= cs@.len(),
            cs@ == src,
            out@ == prefix + cs@.take(i as int).map_values(|c: char| attachment_char(c)),
        decreases n - i,
    {
        let c = cs[i];
        let keep = is_alphanumeric(c) || c == '.' || c == '-' || c == '_' || c == ' ';
        push_char(&mut out, if keep { c } else { '_' });
        assert(cs@.take((i + 1) as int).map_values(|c: char| attachment_char(c)) =~= cs@.take(
            i as int,
        ).map_values(|c: char| attachment_char(c)).push(attachment_char(cs@[i as int])));
        i = i + 1;
    }
    Ok(out)
}

/// The stored name of attachment number `index` (`01-…`, `02-…`, …).
pub fn safe_attachment_name(name: &str, index: usize) -> (r: Result<String, String>)
    ensures
        match r {
            Ok(n) => (decimal_padded2(index as nat) + "-"@).is_prefix_of(n@),
            Err(e) => e@ == "An attachment has an invalid file name"@,
        },
        plain_file_name(name@) ==> match r {
            Ok(n) => attachment_name_of(Some(name@), index as nat) == Some(n@),
            Err(_) => attachment_name_of(Some(name@), index as nat) is None,
        },
        portable_path(name@) ==> match r {
            Ok(n) => attachment_name_of(file_name_of(name@), index as nat) == Some(n@),
            Err(_) => attachment_name_of(file_name_of(name@), index as nat) is None,
        },
{
    let file_name = path_file_name(name);
    let r = attachment_name_from(
        match &file_name {
            Some(f) => Some(f.as_str()),
            None => None,
        },
        index as u64,
    );
    proof {
        if r is Ok {
            let fname = opt_chars(file_name);
            let source = trimmed(
                match fname {
                    Some(f) => f,
                    None => Seq::empty(),
                },
            );
            let kept = source.take(if source.len() < 120 { source.len() as int } else { 120 });
            assert(r->Ok_0@ == (decimal_padded2(index as nat) + "-"@) + kept.map_values(
                |c: char| attachment_char(c),
            ));
            assert((decimal_padded2(index as nat) + "-"@).is_prefix_of(r->Ok_0@));
        }
    }
    r
}

/// The index of the last occurrence of `c` in `s`.
pub open spec fn last_index_of(s: Seq<char>, c: char) -> Option<int>
    decreases s.len(),
{
    if s.len() == 0 {
        None
    } else if s.last() == c {
        Some(s.len() - 1)
    } else {
        last_index_of(s.drop_last(), c)
    }
}

/// The extension of a file name as `Path::extension` documents it: the text
/// after the last `.`, unless the name is `..` or its only `.` is the first
/// character.
pub open spec fn extension_of(name: Seq<char>) -> Option<Seq<char>> {
    if name == ".."@ {
        None
    } else {
        match last_index_of(name, '.') {
            Some(i) => if i == 0 {
                None
            } else {
                Some(name.skip(i + 1))
            },
            None => None,
        }
    }
}

/// The extension of a file name.
pub fn file_extension(name: &str) -> (r: Option<String>)
    ensures
        opt_chars(r) == extension_of(name@),
{
    proof {
        reveal_strlit("..");
    }
    if str_eq(name, "..") {
        return None;
    }
    let cs = chars_of(name);
    let mut i = cs.len();
    assert(cs@.take(cs@.len() as int) =~= cs@);
    while i > 0 && cs[i - 1] != '.'
        invariant
            i <= cs@.len(),
            cs@ == name@,
            last_index_of(cs@, '.') == last_index_of(cs@.take(i as int), '.'),
        decreases i,
    {
        assert(cs@.take(i as int).drop_last() =~= cs@.take(i - 1));
        i = i - 1;
    }
    proof {
        assert(cs@.take(cs@.len() as int) =~= cs@);
    }
    if i == 0 {
        None
    } else if i == 1 {
        None
    } else {
        Some(crate::text::string_of_range(&cs, i, cs.len()))
    }
}

/// Whether Codex receives an attachment as an image: a PNG, JPEG, GIF or
/// WebP MIME type with a matching file extension (compared in lower case).
pub open spec fn codex_image(mime_type: Seq<char>, file_name: Seq<char>) -> bool {
    match extension_of(file_name) {
        Some(e) => {
            let ext = ascii_lowercase(e);
            ||| mime_type == "image/png"@ && ext == "png"@
            ||| mime_type == "image/jpeg"@ && (ext == "jpg"@ || ext == "jpeg"@)
            ||| mime_type == "image/gif"@ && ext == "gif"@
            ||| mime_type == "image/webp"@ && ext == "webp"@
        },
        None => false,
    }
}

/// Whether an attachment stored under `file_name` is sent to Codex as an image.
pub fn is_codex_image(mime_type: &str, file_name: &str) -> (r: bool)
    ensures
        r == codex_image(mime_type@, file_name@),
{
    let ext = match file_extension(file_name) {
        Some(e) => e,
        None => return false,
    };
    let raw = chars_of(ext.as_str());
    let lower = lowercase_ascii(&raw);
    let ext = string_of(&lower);
    let e = ext.as_str();
    (str_eq(mime_type, "image/png") && str_eq(e, "png")) || (str_eq(mime_type, "image/jpeg") && (
    str_eq(e, "jpg") || str_eq(e, "jpeg"))) || (str_eq(mime_type, "image/gif") && str_eq(e, "gif"))
        || (str_eq(mime_type, "image/webp") && str_eq(e, "webp"))
}

/// The first word that starts with an ASCII digit.
pub open spec fn first_digit_word(ws: Seq<Seq<char>>) -> Option<Seq<char>>
    decreases ws.len(),
{
    if ws.len() == 0 {
        None
    } else if ws[0].len() > 0 && is_ascii_digit(ws[0][0]) {
        Some(ws[0])
    } else {
        first_digit_word(ws.drop_first())
    }
}

/// The version in `codex --version` output: its first word that starts with a digit.
pub fn parse_codex_version(output: &str) -> (r: Option<String>)
    ensures
        opt_chars(r) == first_digit_word(words(output@)),
{
    let cs = chars_of(output);
    let ws = split_words(&cs);
    let ghost all = words(cs@);
    let mut i: usize = 0;
    assert(all.skip(0) =~= all);
    while i < ws.len()
        invariant
            i <= ws@.len() == all.len(),
            forall|k: int| 0 <= k < ws@.len() ==> (#[trigger] ws@[k])@ == all[k],
            all == words(output@),
            first_digit_word(all) == first_digit_word(all.skip(i as int)),
        decreases ws.len() - i,
    {
        assert(all.skip(i as int)[0] == all[i as int]);
        assert(all.skip(i as int).drop_first() =~= all.skip(i + 1));
        if ws[i].len() > 0 && is_ascii_digit_char(ws[i][0]) {
            let out = string_of(&ws[i]);
            proof {
                let w = all.skip(i as int)[0];
                assert(w == ws@[i as int]@);
                assert(w.len() > 0 && is_ascii_digit(w[0]));
                assert(first_digit_word(all.skip(i as int)) == Some(w));
                assert(out@ == w);
                assert(all == words(output@));
                assert(first_digit_word(words(output@)) == Some(w));
            }
            let r = Some(out);
            assert(opt_chars(r) == first_digit_word(words(output@)));
            return r;
        }
        i = i + 1;
    }
    None
}

/// The key under which a pending server request is tracked: `n:` and the
/// number, or `s:` and a string of 1 to 512 bytes.
pub open spec fn request_key_of(id: JsonValue) -> Option<Seq<char>> {
    match id {
        JsonValue::Number(n) => Some("n:"@ + n.text@),
        JsonValue::Str(s) => if s@.len() > 0 && utf8_len(s@) <= 512 {
            Some("s:"@ + s@)
        } else {
            None
        },
        _ => None,
    }
}

/// Two server request ids share a key only when both are numbers with the
/// same text or both are the same non-empty string: a number never shares a
/// key with a string.
pub proof fn law_request_keys_tell_ids_apart(a: JsonValue, b: JsonValue)
    requires
        request_key_of(a) is Some,
        request_key_of(a) == request_key_of(b),
    ensures
        (a is Number && b is Number && a->Number_0.text@ == b->Number_0.text@) || (a is Str && b is Str
            && a->Str_0@ == b->Str_0@),
{
    reveal_strlit("n:");
    reveal_strlit("s:");
    let ka = request_key_of(a)->0;
    assert(ka[0] == request_key_of(b)->0[0]);
    match a {
        JsonValue::Number(n) => {
            assert(ka[0] == 'n');
            match b {
                JsonValue::Number(m) => {
                    assert(n.text@ =~= ka.skip(2));
                    assert(m.text@ =~= ka.skip(2));
                },
                _ => {},
            }
        },
        JsonValue::Str(x) => {
            assert(ka[0] == 's');
            match b {
                JsonValue::Str(y) => {
                    assert(x@ =~= ka.skip(2));
                    assert(y@ =~= ka.skip(2));
                },
                _ => {},
            }
        },
        _ => {},
    }
}

/// The key of a server request id.
pub fn request_id_key(id: &JsonValue) -> (r: Result<String, String>)
    ensures
        match r {
            Ok(k) => request_key_of(*id) == Some(k@),
            Err(e) => request_key_of(*id) is None && e@ == "Invalid Codex server request id"@,
        },
{
    match id {
        JsonValue::Number(n) => Ok(concat("n:", n.text.as_str())),
        JsonValue::Str(s) => {
            if !s.as_str().is_empty() && s.as_str().len() <= 512 {
                Ok(concat("s:", s.as_str()))
            } else {
                Err("Invalid Codex server request id".to_string())
            }
        },
        _ => Err("Invalid Codex server request id".to_string()),
    }
}

/// The app-server notifications that belong to a session's thread.
pub open spec fn session_notification(m: Seq<char>) -> bool {
    ||| m == "thread/started"@
    ||| m == "thread/status/changed"@
    ||| m == "turn/started"@
    ||| m == "turn/completed"@
    ||| m == "turn/diff/updated"@
    ||| m == "turn/plan/updated"@
    ||| m == "thread/goal/updated"@
    ||| m == "thread/goal/cleared"@
    ||| m == "item/started"@
    ||| m == "item/completed"@
    ||| m == "item/agentMessage/delta"@
    ||| m == "item/plan/delta"@
    ||| m == "item/commandExecution/outputDelta"@
    ||| m == "item/reasoning/summaryTextDelta"@
    ||| m == "serverRequest/resolved"@
    ||| m == "warning"@
    ||| m == "error"@
}

/// Whether an app-server notification is routed to a dsh session.
pub fn is_session_notification(method: &str) -> (r: bool)
    ensures
        r == session_notification(method@),
{
    str_eq(method, "thread/started") || str_eq(method, "thread/status/changed") || str_eq(
        method,
        "turn/started",
    ) || str_eq(method, "turn/completed") || str_eq(method, "turn/diff/updated") || str_eq(
        method,
        "turn/plan/updated",
    ) || str_eq(method, "thread/goal/updated") || str_eq(method, "thread/goal/cleared") || str_eq(
        method,
        "item/started",
    ) || str_eq(method, "item/completed") || str_eq(method, "item/agentMessage/delta") || str_eq(
        method,
        "item/plan/delta",
    ) || str_eq(method, "item/commandExecution/outputDelta") || str_eq(
        method,
        "item/reasoning/summaryTextDelta",
    ) || str_eq(method, "serverRequest/resolved") || str_eq(method, "warning") || str_eq(
        method,
        "error",
    )
}

/// The thread a notification is about: `threadId`, else `thread.id`, else
/// `turn.threadId`, else `item.threadId` (the first that is a string).
pub open spec fn thread_id_of(params: JsonValue) -> Option<Seq<char>> {
    match params.field_str("threadId"@) {
        Some(t) => Some(t),
        None => match params.field2_str("thread"@, "id"@) {
            Some(t) => Some(t),
            None => match params.field2_str("turn"@, "threadId"@) {
                Some(t) => Some(t),
                None => params.field2_str("item"@, "threadId"@),
            },
        },
    }
}

/// The thread of a message is its `threadId`; failing that `thread.id`,
/// then `turn.threadId`, then `item.threadId` (strings only).
pub proof fn law_thread_id_locations(params: JsonValue)
    ensures
        params.field_str("threadId"@) is Some ==> thread_id_of(params) == params.field_str("threadId"@),
        params.field_str("threadId"@) is None && params.field2_str("thread"@, "id"@) is Some
            ==> thread_id_of(params) == params.field2_str("thread"@, "id"@),
        params.field_str("threadId"@) is None && params.field2_str("thread"@, "id"@) is None
            && params.field2_str("turn"@, "threadId"@) is Some ==> thread_id_of(params)
            == params.field2_str("turn"@, "threadId"@),
        params.field_str("threadId"@) is None && params.field2_str("thread"@, "id"@) is None
            && params.field2_str("turn"@, "threadId"@) is None ==> thread_id_of(params)
            == params.field2_str("item"@, "threadId"@),
{
}

/// The thread a notification or server request is about.
pub fn extract_thread_id(params: &JsonValue) -> (r: Option<String>)
    ensures
        opt_chars(r) == thread_id_of(*params),
{
    match params.get_string("threadId") {
        Some(t) => Some(t),
        None => match params.get2_string("thread", "id") {
            Some(t) => Some(t),
            None => match params.get2_string("turn", "threadId") {
                Some(t) => Some(t),
                None => params.get2_string("item", "threadId"),
            },
        },
    }
}

} // verus!
