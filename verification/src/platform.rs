//! Parameters of the platform file-copy bridge and their validation.
//! The copy itself goes through the platform's storage framework outside
//! this crate; the direction and the required fields are decided here.

use vstd::prelude::*;

verus! {

use crate::errors::ErrorKind;
use crate::errors::SpError;
use crate::strutil::str_eq;

/// Parameters of one staged copy between the app sandbox and a picked
/// directory tree or content URI.
#[derive(Clone, Debug)]
pub struct AndroidFsCopyParams {
    pub direction: String,
    pub local_path: String,
    pub tree_uri: Option<String>,
    pub relative_path: Option<String>,
    pub mime: Option<String>,
    pub uri: Option<String>,
}

/// The three supported copy directions.
#[derive(Clone, Copy, Debug, PartialEq, Eq, Structural)]
pub enum CopyDirection {
    SandboxToTree,
    TreeToSandbox,
    UriToSandbox,
}

/// Decode and validate a copy request: the direction must be one of the
/// three names, and the fields that direction reads must be present (a
/// tree copy needs the tree URI and a non-empty relative path; a URI copy
/// needs the URI).
pub fn parse_copy_direction(p: &AndroidFsCopyParams, now: i64) -> (r: Result<
    CopyDirection,
    SpError,
>)
    ensures
        match r {
            Ok(d) => {
                &&& d == CopyDirection::SandboxToTree ==> p.direction@ == "sandbox_to_tree"@
                    && p.tree_uri is Some && (p.relative_path matches Some(rel) && rel@.len() > 0)
                &&& d == CopyDirection::TreeToSandbox ==> p.direction@ == "tree_to_sandbox"@
                    && p.tree_uri is Some && p.relative_path is Some
                &&& d == CopyDirection::UriToSandbox ==> p.direction@ == "uri_to_sandbox"@
                    && p.uri is Some
            },
            Err(e) => e.kind == ErrorKind::NotRetriable,
        },
        (p.direction@ == "sandbox_to_tree"@ && p.tree_uri is Some && (p.relative_path matches Some(
            rel,
        ) && rel@.len() > 0)) ==> r == Ok::<CopyDirection, SpError>(CopyDirection::SandboxToTree),
        (p.direction@ == "tree_to_sandbox"@ && p.tree_uri is Some && p.relative_path is Some)
            ==> r == Ok::<CopyDirection, SpError>(CopyDirection::TreeToSandbox),
        (p.direction@ == "uri_to_sandbox"@ && p.uri is Some) ==> r == Ok::<
            CopyDirection,
            SpError,
        >(CopyDirection::UriToSandbox),
{
    proof {
        reveal_strlit("sandbox_to_tree");
        reveal_strlit("tree_to_sandbox");
        reveal_strlit("uri_to_sandbox");
        assert("sandbox_to_tree"@ != "tree_to_sandbox"@) by {
            assert(("sandbox_to_tree"@)[0] != ("tree_to_sandbox"@)[0]);
        }
        assert("sandbox_to_tree"@ != "uri_to_sandbox"@) by {
            assert(("sandbox_to_tree"@).len() == 15 && ("uri_to_sandbox"@).len() == 14);
        }
        assert("tree_to_sandbox"@ != "uri_to_sandbox"@) by {
            assert(("tree_to_sandbox"@).len() == 15 && ("uri_to_sandbox"@).len() == 14);
        }
    }
    if str_eq(p.direction.as_str(), "sandbox_to_tree") {
        if p.tree_uri.is_none() {
            return Err(invalid("tree_uri required", now));
        }
        match &p.relative_path {
            None => Err(invalid("relative_path required", now)),
            Some(rel) => {
                if vstd::string::StrSliceExecFns::unicode_len(rel.as_str()) == 0 {
                    Err(invalid("relative_path required", now))
                } else {
                    Ok(CopyDirection::SandboxToTree)
                }
            },
        }
    } else if str_eq(p.direction.as_str(), "tree_to_sandbox") {
        if p.tree_uri.is_none() {
            return Err(invalid("tree_uri required", now));
        }
        if p.relative_path.is_none() {
            return Err(invalid("relative_path required", now));
        }
        Ok(CopyDirection::TreeToSandbox)
    } else if str_eq(p.direction.as_str(), "uri_to_sandbox") {
        if p.uri.is_none() {
            return Err(invalid("uri required", now));
        }
        Ok(CopyDirection::UriToSandbox)
    } else {
        Err(invalid("unsupported direction", now))
    }
}

/// The display name a picked content URI yields: its percent-decoded last
/// path segment.
pub fn derive_name_from_uri(uri: &Vec<u8>) -> (r: Vec<u8>)
    ensures
        r@ == crate::strutil::spec_last_segment(crate::strutil::spec_percent_decode(uri@)),
{
    let decoded = crate::strutil::percent_decode(uri);
    crate::strutil::last_segment(&decoded)
}

fn invalid(msg: &str, now: i64) -> (r: SpError)
    ensures
        r.kind == ErrorKind::NotRetriable,
{
    SpError::new(ErrorKind::NotRetriable, msg.to_owned(), now)
}

} // verus!
