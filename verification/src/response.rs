//! SpiceAPI response messages: checking a decoded response against its request.
use vstd::prelude::*;

use crate::error::{ProtocolError, ProtocolErrorView};
use crate::json::{items_view, Json, JsonView};
use crate::strings::append_str;

verus! {

/// The mathematical value of a response.
pub struct ResponseView {
    pub id: u64,
    pub errors: Seq<Seq<char>>,
    pub data: Seq<JsonView>,
}

/// A SpiceAPI response message.
pub struct Response {
    id: u64,
    errors: Vec<String>,
    data: Vec<Json>,
}

/// The views of a sequence of strings.
pub open spec fn strings_view(v: Seq<String>) -> Seq<Seq<char>> {
    Seq::new(v.len(), |k: int| v[k]@)
}

/// The lines joined with a newline between each two.
pub open spec fn join_lines(lines: Seq<Seq<char>>) -> Seq<char>
    decreases lines.len(),
{
    if lines.len() == 0 {
        Seq::empty()
    } else if lines.len() == 1 {
        lines[0]
    } else {
        join_lines(lines.drop_last()) + seq!['\n'] + lines.last()
    }
}

/// What checking a decoded response against the expected request ID gives:
/// a JSON error as it came; otherwise the server's errors, joined one per line,
/// if there are any; otherwise an ID mismatch if the IDs differ; otherwise the response.
pub open spec fn parse_outcome(decoded: Result<ResponseView, Seq<char>>, expected_id: u64) -> Result<ResponseView, ProtocolErrorView> {
    match decoded {
        Err(m) => Err(ProtocolErrorView::Json(m)),
        Ok(r) => if r.errors.len() > 0 {
            Err(ProtocolErrorView::Api(join_lines(r.errors)))
        } else if r.id != expected_id {
            Err(ProtocolErrorView::IdMismatch { expected: expected_id, actual: r.id })
        } else {
            Ok(r)
        },
    }
}

/// The value of a decoded response, or the message of the decoding error.
pub open spec fn decoded_view(decoded: Result<Response, String>) -> Result<ResponseView, Seq<char>> {
    match decoded {
        Ok(r) => Ok(r@),
        Err(m) => Err(m@),
    }
}

/// The value of a checked response or of the error in its place.
pub open spec fn checked_view(r: Result<Response, ProtocolError>) -> Result<ResponseView, ProtocolErrorView> {
    match r {
        Ok(resp) => Ok(resp@),
        Err(e) => Err(e@),
    }
}


/// The lines of `lines` joined with a newline between each two.
pub fn join_with_newlines(lines: &Vec<String>) -> (r: String)
    ensures
        r@ == join_lines(strings_view(lines@)),
{
    let ghost views = strings_view(lines@);
    let mut buf = String::new();
    for k in 0..lines.len()
        invariant
            views == strings_view(lines@),
            buf@ == join_lines(views.take(k as int)),
    {
        if k > 0 {
            append_str(&mut buf, "\n");
            proof {
                reveal_strlit("\n");
            }
        }
        append_str(&mut buf, lines[k].as_str());
        assert(views.take(k + 1).drop_last() =~= views.take(k as int));
        assert(buf@ =~= join_lines(views.take(k + 1)));
    }
    assert(views.take(lines.len() as int) =~= views);
    buf
}

impl View for Response {
    type V = ResponseView;

    closed spec fn view(&self) -> ResponseView {
        ResponseView { id: self.id, errors: strings_view(self.errors@), data: items_view(self.data@) }
    }
}

impl Response {
    /// A response with the given ID, error messages and data.
    pub fn new(id: u64, errors: Vec<String>, data: Vec<Json>) -> (r: Self)
        ensures
            r@ == (ResponseView { id, errors: strings_view(errors@), data: items_view(data@) }),
    {
        Response { id, errors, data }
    }

    /// Check a decoded response against the expected request ID.
    ///
    /// `decoded` is the response as decoded from the JSON payload, or the message
    /// of the JSON error where the payload does not decode.
    /// Returns `ProtocolError::Json` where it did not decode,
    /// `ProtocolError::Api` if the server reported errors, and
    /// `ProtocolError::IdMismatch` if the response ID doesn't match.
    pub fn parse(decoded: Result<Response, String>, expected_id: u64) -> (r: Result<Response, ProtocolError>)
        ensures
            checked_view(r) == parse_outcome(decoded_view(decoded), expected_id),
    {
        match decoded {
            Err(m) => Err(ProtocolError::Json(m)),
            Ok(resp) => {
                if resp.errors.len() > 0 {
                    let joined = join_with_newlines(&resp.errors);
                    return Err(ProtocolError::Api(joined));
                }
                if resp.id != expected_id {
                    return Err(ProtocolError::IdMismatch { expected: expected_id, actual: resp.id });
                }
                Ok(resp)
            },
        }
    }

    /// The response's ID.
    pub fn id(&self) -> (id: u64)
        ensures
            id == self@.id,
    {
        self.id
    }

    /// The data that the server returned.
    pub fn data(&self) -> (d: &Vec<Json>)
        ensures
            items_view(d@) == self@.data,
    {
        &self.data
    }

    /// The data that the server returned, taken out of the response.
    pub fn into_data(self) -> (d: Vec<Json>)
        ensures
            items_view(d@) == self@.data,
    {
        self.data
    }
}

} // verus!
