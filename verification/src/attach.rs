//! The attachments of a prompt: decoded, held to the size limits, and given
//! the file names under which they are saved.
use vstd::prelude::*;

use base64::Engine;

use crate::paths::{file_name_of, portable_path};
use crate::send::CodexSessionAttachment;
use crate::text::{append_str, concat, decimal, decimal_chars, decimal_padded2, string_of, utf8_len};
use crate::validate::{
    attachment_name_of, codex_image, is_codex_image, path_file_name, safe_attachment_name, MAX_ATTACHMENTS,
    MAX_ATTACHMENTS_BYTES, MAX_ATTACHMENT_BYTES,
};

verus! {

broadcast use vstd::string::group_string_axioms;

/// The bytes that standard base64 (with padding) encodes in `text`; `None`
/// for text it rejects.
pub uninterp spec fn base64_standard_decode(text: Seq<char>) -> Option<Seq<u8>>;

/// `base64::prelude::BASE64_STANDARD.decode`: the decoded bytes, as named
/// by `base64_standard_decode`, or `None` when the text is not valid
/// standard base64.
#[verifier::external_body]
fn decode_base64(text: &str) -> (r: Option<Vec<u8>>)
    ensures
        match r {
            Some(b) => base64_standard_decode(text@) == Some(b@),
            None => base64_standard_decode(text@) is None,
        },
{
    base64::prelude::BASE64_STANDARD.decode(text).ok()
}

/// An attachment ready to be saved.
#[derive(Debug)]
pub struct PlannedAttachment {
    /// The file name the user sees.
    pub display_name: String,
    /// The name of the saved file: the batch stamp, a dash, and the safe name.
    pub file_name: String,
    pub bytes: Vec<u8>,
    pub is_image: bool,
}

/// The longest base64 text that can hold an attachment of at most 20 MB.
pub const MAX_ATTACHMENT_BASE64_LEN: usize = 27_962_034;

/// The error for an attachment above 20 MB.
pub open spec fn too_large_error(name: Seq<char>) -> Seq<char> {
    "Attachment '"@ + name + "' is larger than 20 MB"@
}

/// The error for an attachment that is not base64.
pub open spec fn not_base64_error(name: Seq<char>) -> Seq<char> {
    "Attachment '"@ + name + "' is not valid base64 data"@
}

/// Why the data of one attachment is refused, if it is.
pub open spec fn data_problem(a: CodexSessionAttachment) -> Option<Seq<char>> {
    if utf8_len(a.data_base64@) > MAX_ATTACHMENT_BASE64_LEN {
        Some(too_large_error(a.name@))
    } else {
        match base64_standard_decode(a.data_base64@) {
            None => Some(not_base64_error(a.name@)),
            Some(b) => if b.len() > MAX_ATTACHMENT_BYTES {
                Some(too_large_error(a.name@))
            } else {
                None
            },
        }
    }
}

/// The decoded size of an attachment (0 when it does not decode).
pub open spec fn decoded_len(a: CodexSessionAttachment) -> nat {
    match base64_standard_decode(a.data_base64@) {
        Some(b) => b.len(),
        None => 0,
    }
}

/// The total decoded size of the first `k` attachments.
pub open spec fn total_len(atts: Seq<CodexSessionAttachment>, k: int) -> nat
    decreases k,
{
    if k <= 0 {
        0
    } else {
        total_len(atts, k - 1) + decoded_len(atts[k - 1])
    }
}

/// The first `k` attachments pass the data and size checks.
pub open spec fn prefix_ok(atts: Seq<CodexSessionAttachment>, k: int) -> bool {
    &&& forall|j: int| 0 <= j < k ==> data_problem(#[trigger] atts[j]) is None
    &&& total_len(atts, k) <= MAX_ATTACHMENTS_BYTES
}

/// Why attachment `k` is refused once the ones before it passed: its data,
/// the total size, or its file name (which the platform's path functions
/// decide).
pub open spec fn refused_at(atts: Seq<CodexSessionAttachment>, k: int, e: Seq<char>) -> bool {
    &&& 0 <= k < atts.len()
    &&& prefix_ok(atts, k)
    &&& {
        ||| data_problem(atts[k]) == Some(e)
        ||| (data_problem(atts[k]) is None && total_len(atts, k + 1) > MAX_ATTACHMENTS_BYTES && e
            == "Attachments in one message cannot exceed 50 MB in total"@)
        ||| (data_problem(atts[k]) is None && total_len(atts, k + 1) <= MAX_ATTACHMENTS_BYTES && e
            == "An attachment has an invalid file name"@ && (portable_path(atts[k].name@)
            ==> attachment_name_of(file_name_of(atts[k].name@), (k + 1) as nat) is None))
    }
}

/// Why a prompt's attachments are refused: too many, or one of them.
pub open spec fn attachments_refused(atts: Seq<CodexSessionAttachment>, e: Seq<char>) -> bool {
    if atts.len() > MAX_ATTACHMENTS {
        e == "A message can include at most 10 attachments"@
    } else {
        exists|k: int| #[trigger] refused_at(atts, k, e)
    }
}

/// Attachment `a`, number `i` (from 0) of a batch stamped `stamp`, planned as `p`.
pub open spec fn planned_as(a: CodexSessionAttachment, i: int, stamp: u64, p: PlannedAttachment) -> bool {
    &&& base64_standard_decode(a.data_base64@) == Some(p.bytes@)
    &&& (decimal(stamp as nat) + "-"@ + decimal_padded2((i + 1) as nat) + "-"@).is_prefix_of(
        p.file_name@,
    )
    &&& p.is_image == codex_image(a.mime_type@, p.file_name@)
    &&& portable_path(a.name@) ==> {
        &&& p.display_name@ == (match file_name_of(a.name@) {
            Some(f) => f,
            None => "attachment"@,
        })
        &&& attachment_name_of(file_name_of(a.name@), (i + 1) as nat) is Some
        &&& p.file_name@ == decimal(stamp as nat) + "-"@ + attachment_name_of(
            file_name_of(a.name@),
            (i + 1) as nat,
        )->0
    }
}

/// `Attachment '<name><rest>`.
fn named_error(name: &str, rest: &str) -> (e: String)
    ensures
        e@ == "Attachment '"@ + name@ + rest@,
{
    let mut e = concat("Attachment '", name);
    append_str(&mut e, rest);
    e
}

/// Checks and decodes the attachments of a prompt and names their files in
/// the batch stamped `stamp`: at most 10 attachments, each valid base64 of
/// at most 20 MB, at most 50 MB together, each with a usable file name.
#[verifier::spinoff_prover]
pub fn plan_attachments(attachments: &Vec<CodexSessionAttachment>, stamp: u64) -> (r: Result<
    Vec<PlannedAttachment>,
    String,
>)
    ensures
        match r {
            Ok(planned) => {
                &&& attachments@.len() <= MAX_ATTACHMENTS
                &&& prefix_ok(attachments@, attachments@.len() as int)
                &&& planned@.len() == attachments@.len()
                &&& forall|i: int|
                    0 <= i < planned@.len() ==> planned_as(
                        attachments@[i],
                        i,
                        stamp,
                        #[trigger] planned@[i],
                    )
            },
            Err(e) => attachments_refused(attachments@, e@),
        },
{
    if attachments.len() > MAX_ATTACHMENTS {
        return Err("A message can include at most 10 attachments".to_string());
    }
    let digits = decimal_chars(stamp);
    let stamp_text = string_of(&digits);
    let mut planned: Vec<PlannedAttachment> = Vec::new();
    let mut total: usize = 0;
    let mut i: usize = 0;
    while i < attachments.len()
        invariant
            i <= attachments@.len() <= MAX_ATTACHMENTS,
            stamp_text@ == decimal(stamp as nat),
            total == total_len(attachments@, i as int),
            prefix_ok(attachments@, i as int),
            planned@.len() == i,
            forall|j: int|
                0 <= j < i ==> planned_as(attachments@[j], j, stamp, #[trigger] planned@[j]),
        decreases attachments.len() - i,
    {
        let a = &attachments[i];
        if a.data_base64.as_str().len() > MAX_ATTACHMENT_BASE64_LEN {
            let e = named_error(a.name.as_str(), "' is larger than 20 MB");
            assert(refused_at(attachments@, i as int, e@));
            assert(attachments_refused(attachments@, e@));
            return Err(e);
        }
        let bytes = match decode_base64(a.data_base64.as_str()) {
            Some(b) => b,
            None => {
                let e = named_error(a.name.as_str(), "' is not valid base64 data");
                assert(refused_at(attachments@, i as int, e@));
            assert(attachments_refused(attachments@, e@));
                return Err(e);
            },
        };
        if bytes.len() > MAX_ATTACHMENT_BYTES {
            let e = named_error(a.name.as_str(), "' is larger than 20 MB");
            assert(refused_at(attachments@, i as int, e@));
            assert(attachments_refused(attachments@, e@));
            return Err(e);
        }
        assert(data_problem(attachments@[i as int]) is None);
        total = total + bytes.len();
        if total > MAX_ATTACHMENTS_BYTES {
            let e = "Attachments in one message cannot exceed 50 MB in total".to_string();
            assert(refused_at(attachments@, i as int, e@));
            assert(attachments_refused(attachments@, e@));
            return Err(e);
        }
        let display_name = match path_file_name(a.name.as_str()) {
            Some(n) => n,
            None => "attachment".to_string(),
        };
        let safe = match safe_attachment_name(a.name.as_str(), i + 1) {
            Ok(n) => n,
            Err(e) => {
                assert(refused_at(attachments@, i as int, e@));
            assert(attachments_refused(attachments@, e@));
                return Err(e);
            },
        };
        let mut file_name = stamp_text.clone();
        append_str(&mut file_name, "-");
        let ghost head = file_name@;
        append_str(&mut file_name, safe.as_str());
        proof {
            let p = decimal_padded2((i + 1) as nat) + "-"@;
            assert(p.is_prefix_of(safe@));
            assert(safe@.take(p.len() as int) =~= p);
            assert((head + p).is_prefix_of(file_name@)) by {
                assert(file_name@ =~= head + safe@);
                assert(file_name@.take((head + p).len() as int) =~= head + p);
            }
            assert(head + p =~= decimal(stamp as nat) + "-"@ + decimal_padded2((i + 1) as nat)
                + "-"@);
        }
        let is_image = is_codex_image(a.mime_type.as_str(), file_name.as_str());
        let p = PlannedAttachment { display_name, file_name, bytes, is_image };
        assert(planned_as(attachments@[i as int], i as int, stamp, p));
        planned.push(p);
        i = i + 1;
    }
    Ok(planned)
}

} // verus!
