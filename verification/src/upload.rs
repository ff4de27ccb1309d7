//! The upload flow: boundary extraction, the first multipart entry, the
//! destination plan, and the layered error taxonomy of saving.
//!
//! Ordered failure modes, first applicable wins: no `boundary` parameter in
//! the content type, an unparsable body, a body with no entry, an entry with
//! no declared file name — then, after the write to disk, the save outcome
//! is classified.

use vstd::prelude::*;
use vstd::string::StringExecFns;
use crate::paths::resolve_child;
use crate::text::str_eq;

verus! {

/// An HTTP-level failure of the upload flow: a client defect answered with
/// status 400, or a server fault answered with status 500.
#[derive(Debug)]
pub enum UploadError {
    BadRequest(String),
    InternalError(String),
}

impl UploadError {
    /// The plain-text body this error answers with.
    pub open spec fn message_spec(&self) -> String {
        match self {
            UploadError::BadRequest(m) => *m,
            UploadError::InternalError(m) => *m,
        }
    }

    /// The HTTP status this error answers with.
    pub fn status_code(&self) -> (r: u16)
        ensures
            self matches UploadError::BadRequest(_) <==> r == 400,
            self matches UploadError::InternalError(_) <==> r == 500,
    {
        match self {
            UploadError::BadRequest(_) => 400,
            UploadError::InternalError(_) => 500,
        }
    }

    /// The plain-text body this error answers with.
    pub fn message(&self) -> (r: &String)
        ensures
            *r == self.message_spec(),
    {
        match self {
            UploadError::BadRequest(m) => m,
            UploadError::InternalError(m) => m,
        }
    }
}

/// How parsing the request body as a multipart stream and reading its first
/// entry ended.
pub enum ParseOutcome {
    /// The stream could not be parsed or read through; carries the detail.
    Failed(String),
    /// The stream parsed but held no entry at all.
    NoEntry,
    /// The first entry: its declared file name, if any, and its data.
    Entry { filename: Option<String>, data: Vec<u8> },
}

/// Why a save wrote only part of the data.
pub enum PartialCause {
    CountLimit,
    SizeLimit,
    IoFault(String),
    EncodingFault,
}

/// How writing the uploaded data to disk ended.
pub enum SaveOutcome {
    Complete,
    Partial(PartialCause),
    Failed(String),
}

/// What to write where: the destination as segments under the serving root,
/// and the bytes of the uploaded file.
pub struct UploadPlan {
    pub dest: Vec<String>,
    pub data: Vec<u8>,
}

/// The value of the first `boundary` parameter of the content type, if any.
pub open spec fn boundary_of(params: Seq<(String, String)>) -> Option<String>
    decreases params.len(),
{
    if params.len() == 0 {
        Option::None
    } else if params[0].0@ == "boundary"@ {
        Option::Some(params[0].1)
    } else {
        boundary_of(params.skip(1))
    }
}

/// Finds the `boundary` parameter among the content-type parameters, or
/// reports the client's defect.
pub fn boundary_param(params: &Vec<(String, String)>) -> (r: Result<String, UploadError>)
    ensures
        boundary_of(params@) matches Some(b) ==> r == Ok::<String, UploadError>(b),
        boundary_of(params@) is None ==> (r matches Err(e) && e matches UploadError::BadRequest(m)
            && m@ == "Content-Type: form-data without boundary"@),
{
    let mut i: usize = 0;
    proof {
        assert(params@.skip(0) =~= params@);
    }
    while i < params.len()
        invariant
            i <= params@.len(),
            boundary_of(params@) == boundary_of(params@.skip(i as int)),
        decreases params@.len() - i,
    {
        if str_eq(params[i].0.as_str(), "boundary") {
            proof {
                assert(params@.skip(i as int)[0] == params@[i as int]);
            }
            return Result::Ok(params[i].1.clone());
        }
        proof {
            assert(params@.skip(i as int)[0] == params@[i as int]);
            assert(params@.skip(i as int).skip(1) =~= params@.skip(i as int + 1));
        }
        i += 1;
    }
    proof {
        assert(params@.skip(params@.len() as int) =~= Seq::<(String, String)>::empty());
    }
    Result::Err(UploadError::BadRequest(String::from_str("Content-Type: form-data without boundary")))
}

/// What the upload decision returns for each parse outcome: a parse fault is
/// a server error with its detail, an entryless body and a nameless entry
/// are client defects, and a named entry yields the plan writing its data at
/// the directory joined with the declared name.
pub open spec fn plan_decision(
    parse: ParseOutcome,
    dir: Seq<String>,
    r: Result<UploadPlan, UploadError>,
) -> bool {
    &&& (parse matches ParseOutcome::Failed(d) ==> (r matches Err(e)
        && e matches UploadError::InternalError(m) && m == d))
    &&& (parse matches ParseOutcome::NoEntry ==> (r matches Err(e)
        && e matches UploadError::BadRequest(m)
        && m@ == "Request body don't include any entry"@))
    &&& (parse matches ParseOutcome::Entry { filename: Option::None, .. } ==> (r matches Err(e)
        && e matches UploadError::BadRequest(m) && m@ == "Request body don't include filename"@))
    &&& (parse matches ParseOutcome::Entry { filename: Option::Some(name), data } ==> (r matches Ok(
        plan,
    ) && plan.dest@ == dir.push(name) && plan.data == data))
}

/// Decides what to do with the first entry of the body: exactly
/// `plan_decision`, for every parse outcome, whatever data the entry
/// carries.
pub fn entry_plan(parse: ParseOutcome, dir: &Vec<String>) -> (r: Result<UploadPlan, UploadError>)
    ensures
        plan_decision(parse, dir@, r),
{
    match parse {
        ParseOutcome::Failed(d) => Result::Err(UploadError::InternalError(d)),
        ParseOutcome::NoEntry => Result::Err(
            UploadError::BadRequest(String::from_str("Request body don't include any entry")),
        ),
        ParseOutcome::Entry { filename: Option::None, data: _ } => Result::Err(
            UploadError::BadRequest(String::from_str("Request body don't include filename")),
        ),
        ParseOutcome::Entry { filename: Option::Some(name), data } => Result::Ok(
            UploadPlan { dest: resolve_child(dir, name), data },
        ),
    }
}

/// What the multipart parser yields for a body and a boundary.  The parse
/// runs over an in-memory cursor, so the outcome is a function of the two
/// arguments alone; which outcome that is, this name does not say.
pub uninterp spec fn parse_of(body: Seq<u8>, boundary: Seq<char>) -> ParseOutcome;

/// Relies on `multipart::server::Multipart`: `with_body` takes the raw body
/// bytes and the boundary, `into_entry().into_result()` parses up to the
/// first entry (`Ok(None)` when the stream holds none), and the entry's data
/// is read to its end with `std::io::Read::read_to_end`.  The whole run is a
/// deterministic function of the bytes and the boundary, named `parse_of`;
/// callers decide from the returned variant alone.
#[verifier::external_body]
fn parse_first_entry(body: &Vec<u8>, boundary: &str) -> (r: ParseOutcome)
    ensures
        r == parse_of(body@, boundary@),
{
    let cursor = std::io::Cursor::new(body.as_slice());
    match multipart::server::Multipart::with_body(cursor, boundary).into_entry().into_result() {
        Err(e) => ParseOutcome::Failed(e.to_string()),
        Ok(None) => ParseOutcome::NoEntry,
        Ok(Some(mut entry)) => {
            let mut data: Vec<u8> = Vec::new();
            match std::io::Read::read_to_end(&mut entry.data, &mut data) {
                Err(e) => ParseOutcome::Failed(e.to_string()),
                Ok(_) => ParseOutcome::Entry { filename: entry.headers.filename, data },
            }
        },
    }
}

/// Runs the pre-save part of the upload flow: checks the boundary, parses
/// the body, and plans the write.  A missing boundary is reported for every
/// body alike; otherwise the result is exactly `plan_decision` for the parse
/// of this body with that boundary, so success is owed precisely when the
/// body's first entry declares a file name.
pub fn prepare_upload(
    params: &Vec<(String, String)>,
    dir: &Vec<String>,
    body: &Vec<u8>,
) -> (r: Result<UploadPlan, UploadError>)
    ensures
        boundary_of(params@) is None ==> (r matches Err(e)
            && e matches UploadError::BadRequest(m)
            && m@ == "Content-Type: form-data without boundary"@),
        boundary_of(params@) matches Some(b) ==> plan_decision(parse_of(body@, b@), dir@, r),
{
    let boundary = match boundary_param(params) {
        Result::Err(e) => {
            return Result::Err(e);
        },
        Result::Ok(b) => b,
    };
    let parse = parse_first_entry(body, boundary.as_str());
    let ghost gp = parse;
    let r = entry_plan(parse, dir);
    proof {
        assert(gp == parse_of(body@, boundary_of(params@)->Some_0@));
        assert(plan_decision(gp, dir@, r));
    }
    r
}

/// Success is owed exactly on a named entry: any result meeting
/// `plan_decision` is `Ok` if and only if the parse outcome is an entry
/// that declares a file name.
pub proof fn lemma_plan_success_iff(
    parse: ParseOutcome,
    dir: Seq<String>,
    r: Result<UploadPlan, UploadError>,
)
    requires
        plan_decision(parse, dir, r),
    ensures
        r is Ok <==> parse matches ParseOutcome::Entry { filename: Option::Some(_), .. },
{
}

/// Classifies how the save ended: full success answers `File saved`; a
/// partial write names which configured limit was hit, the I/O fault's
/// detail, or the encoding failure; a save-time error carries its detail.
/// Success is answered exactly on a complete save.
pub fn classify_save(outcome: SaveOutcome) -> (r: Result<String, UploadError>)
    ensures
        r is Ok <==> outcome matches SaveOutcome::Complete,
        outcome matches SaveOutcome::Complete ==> (r matches Ok(m) && m@ == "File saved"@),
        outcome matches SaveOutcome::Partial(PartialCause::CountLimit) ==> (r matches Err(e)
            && e matches UploadError::InternalError(m)
            && m@ == "The count limit for files in the request was hit."@),
        outcome matches SaveOutcome::Partial(PartialCause::SizeLimit) ==> (r matches Err(e)
            && e matches UploadError::InternalError(m)
            && m@ == "The size limit for an individual file was hit."@),
        outcome matches SaveOutcome::Partial(PartialCause::IoFault(d)) ==> (r matches Err(e)
            && e matches UploadError::InternalError(m) && m == d),
        outcome matches SaveOutcome::Partial(PartialCause::EncodingFault) ==> (r matches Err(e)
            && e matches UploadError::InternalError(m) && m@ == "UTF convert err"@),
        outcome matches SaveOutcome::Failed(d) ==> (r matches Err(e)
            && e matches UploadError::InternalError(m) && m == d),
{
    match outcome {
        SaveOutcome::Complete => Result::Ok(String::from_str("File saved")),
        SaveOutcome::Partial(PartialCause::CountLimit) => Result::Err(
            UploadError::InternalError(
                String::from_str("The count limit for files in the request was hit."),
            ),
        ),
        SaveOutcome::Partial(PartialCause::SizeLimit) => Result::Err(
            UploadError::InternalError(
                String::from_str("The size limit for an individual file was hit."),
            ),
        ),
        SaveOutcome::Partial(PartialCause::IoFault(d)) => Result::Err(
            UploadError::InternalError(d),
        ),
        SaveOutcome::Partial(PartialCause::EncodingFault) => Result::Err(
            UploadError::InternalError(String::from_str("UTF convert err")),
        ),
        SaveOutcome::Failed(d) => Result::Err(UploadError::InternalError(d)),
    }
}

} // verus!


