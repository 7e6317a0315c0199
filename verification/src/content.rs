//! File-content handling: decoding the base64 payloads the providers return,
//! and presenting content, fenced with a language tag for well-known source
//! file extensions.

use vstd::prelude::*;

verus! {

use crate::errors::RepoError;
use crate::strutil::ends_with;
use crate::strutil::remove_char_spec;
use crate::strutil::suffix_after_last;
use vstd::utf8::decode_utf8;
use vstd::utf8::valid_utf8;

/// What base64 decoding makes of a text: the decoded bytes, or nothing for
/// text that is not valid base64. A function of the text alone.
pub uninterp spec fn base64_decoded(s: Seq<char>) -> Option<Seq<u8>>;

/// Relies on base64's `decode`: standard-alphabet base64 decoding with
/// padding, a function of the input text alone; undecodable input is an
/// error.
#[verifier::external_body]
fn base64_decode(s: &str) -> (r: Option<Vec<u8>>)
    ensures
        match r {
            Some(v) => base64_decoded(s@) == Some(v@),
            None => base64_decoded(s@) is None,
        },
{
    base64::decode(s).ok()
}

/// Relies on std's `String::from_utf8`: succeeds exactly on valid UTF-8 and
/// decodes it.
#[verifier::external_body]
fn string_from_utf8(bytes: Vec<u8>) -> (r: Option<String>)
    ensures
        match r {
            Some(s) => valid_utf8(bytes@) && s@ == decode_utf8(bytes@),
            None => !valid_utf8(bytes@),
        },
{
    String::from_utf8(bytes).ok()
}

/// The text a GitHub file payload decodes to: the payload without its
/// newlines, base64-decoded, read as UTF-8.
pub open spec fn github_payload_text(payload: Seq<char>) -> Option<Seq<char>> {
    match base64_decoded(remove_char_spec(payload, '\n')) {
        Some(bytes) => if valid_utf8(bytes) {
            Some(decode_utf8(bytes))
        } else {
            Option::<Seq<char>>::None
        },
        None => Option::<Seq<char>>::None,
    }
}

/// Decodes the base64 file payload GitHub returns, which carries embedded
/// newlines; undecodable or non-UTF-8 content is an upstream parse error.
pub fn decode_github_file_payload(payload: &str) -> (r: Result<String, RepoError>)
    ensures
        match r {
            Ok(text) => github_payload_text(payload@) == Some(text@),
            Err(e) => github_payload_text(payload@) is None && e matches RepoError::UpstreamParse(
                _,
            ),
        },
{
    let cleaned = crate::strutil::remove_char(payload, '\n');
    match base64_decode(cleaned.as_str()) {
        None => Err(RepoError::UpstreamParse(String::from_str("file content is not base64"))),
        Some(bytes) => match string_from_utf8(bytes) {
            None => Err(RepoError::UpstreamParse(String::from_str("file content is not UTF-8"))),
            Some(text) => Ok(text),
        },
    }
}

/// The text a GitLab file payload decodes to: base64-decoded UTF-8 when the
/// response declares base64 encoding, the payload itself otherwise.
pub open spec fn gitlab_payload_text(payload: Seq<char>, encoding: Seq<char>) -> Option<Seq<char>> {
    if encoding == "base64"@ {
        match base64_decoded(payload) {
            Some(bytes) => if valid_utf8(bytes) {
                Some(decode_utf8(bytes))
            } else {
                Option::<Seq<char>>::None
            },
            None => Option::<Seq<char>>::None,
        }
    } else {
        Some(payload)
    }
}

/// Decodes the file payload GitLab returns under a declared encoding;
/// undecodable or non-UTF-8 base64 content is an upstream parse error, and
/// any other declared encoding passes the payload through.
pub fn decode_gitlab_file_payload(payload: String, encoding: &str) -> (r: Result<
    String,
    RepoError,
>)
    ensures
        match r {
            Ok(text) => gitlab_payload_text(payload@, encoding@) == Some(text@),
            Err(e) => gitlab_payload_text(payload@, encoding@) is None && e matches
                RepoError::UpstreamParse(_),
        },
{
    if crate::strutil::str_eq(encoding, "base64") {
        match base64_decode(payload.as_str()) {
            None => Err(RepoError::UpstreamParse(String::from_str("file content is not base64"))),
            Some(bytes) => match string_from_utf8(bytes) {
                None => Err(
                    RepoError::UpstreamParse(String::from_str("file content is not UTF-8")),
                ),
                Some(text) => Ok(text),
            },
        }
    } else {
        Ok(payload)
    }
}

/// Whether a file path names a kind of source or markup file whose content
/// is shown inside a fenced block with a language tag.
pub open spec fn is_code_path(path: Seq<char>) -> bool {
    ||| ends_with(path, ".rs"@)
    ||| ends_with(path, ".js"@)
    ||| ends_with(path, ".py"@)
    ||| ends_with(path, ".go"@)
    ||| ends_with(path, ".java"@)
    ||| ends_with(path, ".c"@)
    ||| ends_with(path, ".cpp"@)
    ||| ends_with(path, ".h"@)
    ||| ends_with(path, ".ts"@)
    ||| ends_with(path, ".sh"@)
    ||| ends_with(path, ".json"@)
    ||| ends_with(path, ".yaml"@)
    ||| ends_with(path, ".yml"@)
    ||| ends_with(path, ".toml"@)
    ||| ends_with(path, ".md"@)
}

/// Whether a file path names a kind of source or markup file.
pub fn path_is_code(path: &str) -> (r: bool)
    ensures
        r == is_code_path(path@),
{
    crate::strutil::str_ends_with(path, ".rs") || crate::strutil::str_ends_with(path, ".js")
        || crate::strutil::str_ends_with(path, ".py") || crate::strutil::str_ends_with(path, ".go")
        || crate::strutil::str_ends_with(path, ".java") || crate::strutil::str_ends_with(
        path,
        ".c",
    ) || crate::strutil::str_ends_with(path, ".cpp") || crate::strutil::str_ends_with(path, ".h")
        || crate::strutil::str_ends_with(path, ".ts") || crate::strutil::str_ends_with(path, ".sh")
        || crate::strutil::str_ends_with(path, ".json") || crate::strutil::str_ends_with(
        path,
        ".yaml",
    ) || crate::strutil::str_ends_with(path, ".yml") || crate::strutil::str_ends_with(
        path,
        ".toml",
    ) || crate::strutil::str_ends_with(path, ".md")
}

/// The text a file read presents: source and markup files are fenced with
/// the extension as language tag, anything else is handed through.
pub open spec fn formatted_file_content(path: Seq<char>, content: Seq<char>) -> Seq<char> {
    if is_code_path(path) {
        "```"@ + suffix_after_last(path, '.') + "\n"@ + content + "\n```"@
    } else {
        content
    }
}

/// Presents file content, fenced with a language tag for source and markup
/// files.
pub fn format_file_content(path: &str, content: String) -> (r: String)
    ensures
        r@ == formatted_file_content(path@, content@),
{
    if path_is_code(path) {
        let mut out = String::from_str("```");
        let ext = crate::strutil::suffix_after_last_of(path, '.');
        out.append(ext.as_str());
        out.append("\n");
        out.append(content.as_str());
        out.append("\n```");
        proof {
            assert(out@ =~= "```"@ + suffix_after_last(path@, '.') + "\n"@ + content@ + "\n```"@);
        }
        out
    } else {
        content
    }
}

/// The rendered tree wrapped in a plain fenced block, as the tree-view
/// operation presents it.
pub fn fence_tree(tree: &str) -> (r: String)
    ensures
        r@ == "```\n"@ + tree@ + "\n```"@,
{
    let mut out = String::from_str("```\n");
    out.append(tree);
    out.append("\n```");
    proof {
        assert(out@ =~= "```\n"@ + tree@ + "\n```"@);
    }
    out
}

} // verus!
