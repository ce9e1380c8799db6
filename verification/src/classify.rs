//! Classification of outbound S3 requests into billable operations.
//!
//! Each HTTP request against the store is mapped, from its method, query
//! string and copy-source header, to at most one operation name, and each
//! operation belongs to one billing class.

use vstd::prelude::*;

verus! {

use crate::strutil::has_substr;
use crate::strutil::contains_str;
use crate::strutil::str_eq;

/// Billing class of an operation: A covers mutations and list, B covers
/// reads and metadata.
#[derive(Clone, Copy, Debug, PartialEq, Eq, Structural)]
pub enum OpClass {
    A,
    B,
}

/// The S3 operations the accounting layer distinguishes.
#[derive(Clone, Copy, Debug, PartialEq, Eq, Structural)]
pub enum S3Op {
    ListObjectsV2,
    GetBucketLocation,
    GetObject,
    HeadObject,
    UploadPart,
    CopyObject,
    PutObject,
    CreateMultipartUpload,
    CompleteMultipartUpload,
    DeleteObjects,
    AbortMultipartUpload,
    DeleteObject,
}

/// Billing class of each operation.
pub open spec fn spec_op_class(op: S3Op) -> OpClass {
    match op {
        S3Op::GetBucketLocation => OpClass::B,
        S3Op::GetObject => OpClass::B,
        S3Op::HeadObject => OpClass::B,
        _ => OpClass::A,
    }
}

/// Billing class of each operation.
pub fn op_class(op: S3Op) -> (r: OpClass)
    ensures
        r == spec_op_class(op),
{
    match op {
        S3Op::GetBucketLocation => OpClass::B,
        S3Op::GetObject => OpClass::B,
        S3Op::HeadObject => OpClass::B,
        _ => OpClass::A,
    }
}

/// The wire name of an operation, as it appears in ledger objects.
pub fn op_name(op: S3Op) -> (r: &'static str)
    ensures
        r@ == spec_op_name(op),
{
    match op {
        S3Op::ListObjectsV2 => "ListObjectsV2",
        S3Op::GetBucketLocation => "GetBucketLocation",
        S3Op::GetObject => "GetObject",
        S3Op::HeadObject => "HeadObject",
        S3Op::UploadPart => "UploadPart",
        S3Op::CopyObject => "CopyObject",
        S3Op::PutObject => "PutObject",
        S3Op::CreateMultipartUpload => "CreateMultipartUpload",
        S3Op::CompleteMultipartUpload => "CompleteMultipartUpload",
        S3Op::DeleteObjects => "DeleteObjects",
        S3Op::AbortMultipartUpload => "AbortMultipartUpload",
        S3Op::DeleteObject => "DeleteObject",
    }
}

/// The wire name of an operation.
pub open spec fn spec_op_name(op: S3Op) -> Seq<char> {
    match op {
        S3Op::ListObjectsV2 => "ListObjectsV2"@,
        S3Op::GetBucketLocation => "GetBucketLocation"@,
        S3Op::GetObject => "GetObject"@,
        S3Op::HeadObject => "HeadObject"@,
        S3Op::UploadPart => "UploadPart"@,
        S3Op::CopyObject => "CopyObject"@,
        S3Op::PutObject => "PutObject"@,
        S3Op::CreateMultipartUpload => "CreateMultipartUpload"@,
        S3Op::CompleteMultipartUpload => "CompleteMultipartUpload"@,
        S3Op::DeleteObjects => "DeleteObjects"@,
        S3Op::AbortMultipartUpload => "AbortMultipartUpload"@,
        S3Op::DeleteObject => "DeleteObject"@,
    }
}

/// The classification table over method, query string and copy-source
/// header presence. Requests that match no row are not counted.
pub open spec fn spec_classify(method: Seq<char>, query: Seq<char>, has_copy_source: bool) -> Option<
    S3Op,
> {
    if method == "GET"@ {
        if has_substr(query, "list-type="@) {
            Some(S3Op::ListObjectsV2)
        } else if has_substr(query, "location"@) {
            Some(S3Op::GetBucketLocation)
        } else {
            Some(S3Op::GetObject)
        }
    } else if method == "HEAD"@ {
        Some(S3Op::HeadObject)
    } else if method == "PUT"@ {
        if has_substr(query, "partNumber="@) && has_substr(query, "uploadId="@) {
            Some(S3Op::UploadPart)
        } else if has_copy_source {
            Some(S3Op::CopyObject)
        } else {
            Some(S3Op::PutObject)
        }
    } else if method == "POST"@ {
        if has_substr(query, "uploads"@) {
            Some(S3Op::CreateMultipartUpload)
        } else if has_substr(query, "uploadId="@) {
            Some(S3Op::CompleteMultipartUpload)
        } else if has_substr(query, "delete"@) {
            Some(S3Op::DeleteObjects)
        } else {
            None
        }
    } else if method == "DELETE"@ {
        if has_substr(query, "uploadId="@) {
            Some(S3Op::AbortMultipartUpload)
        } else {
            Some(S3Op::DeleteObject)
        }
    } else {
        None
    }
}

/// Classify one outbound request. `query` is the raw query string (empty
/// when the URI has none); `has_copy_source` reports an `x-amz-copy-source`
/// header.
pub fn classify_s3_action(method: &str, query: &str, has_copy_source: bool) -> (r: Option<S3Op>)
    ensures
        r == spec_classify(method@, query@, has_copy_source),
{
    if str_eq(method, "GET") {
        if contains_str(query, "list-type=") {
            Some(S3Op::ListObjectsV2)
        } else if contains_str(query, "location") {
            Some(S3Op::GetBucketLocation)
        } else {
            Some(S3Op::GetObject)
        }
    } else if str_eq(method, "HEAD") {
        Some(S3Op::HeadObject)
    } else if str_eq(method, "PUT") {
        if contains_str(query, "partNumber=") && contains_str(query, "uploadId=") {
            Some(S3Op::UploadPart)
        } else if has_copy_source {
            Some(S3Op::CopyObject)
        } else {
            Some(S3Op::PutObject)
        }
    } else if str_eq(method, "POST") {
        if contains_str(query, "uploads") {
            Some(S3Op::CreateMultipartUpload)
        } else if contains_str(query, "uploadId=") {
            Some(S3Op::CompleteMultipartUpload)
        } else if contains_str(query, "delete") {
            Some(S3Op::DeleteObjects)
        } else {
            None
        }
    } else if str_eq(method, "DELETE") {
        if contains_str(query, "uploadId=") {
            Some(S3Op::AbortMultipartUpload)
        } else {
            Some(S3Op::DeleteObject)
        }
    } else {
        None
    }
}

} // verus!
