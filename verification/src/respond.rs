//! The plain values that cross the HTTP boundary: the first line of the
//! upload response, the download's attachment header value, the liveness
//! body, and the two client-visible rejections.

use vstd::prelude::*;

verus! {

/// A request turned away at the registry.
#[derive(Clone, Copy, PartialEq, Eq, Structural, Debug)]
pub enum Rejection {
    /// Unknown, already-claimed or expired identifier.
    NotFound,
    /// Capacity ceiling reached, or the identifier space was exhausted.
    Overloaded,
}

impl Rejection {
    /// The HTTP status this rejection is reported with.
    pub open spec fn status_spec(self) -> u16 {
        match self {
            Rejection::NotFound => 404,
            Rejection::Overloaded => 503,
        }
    }

    /// The response body text for this rejection.
    pub open spec fn body_spec(self) -> Seq<char> {
        match self {
            Rejection::NotFound => "no such connection found\r\n"@,
            Rejection::Overloaded => "server overloaded, please try again later"@,
        }
    }

    /// The HTTP status code: `404` for a missing connection, `503` for an
    /// overloaded server.
    pub fn status_code(&self) -> (code: u16)
        ensures
            code == self.status_spec(),
    {
        match self {
            Rejection::NotFound => 404,
            Rejection::Overloaded => 503,
        }
    }

    /// The short explanatory body sent with the status.
    pub fn body_text(&self) -> (body: String)
        ensures
            body@ == self.body_spec(),
    {
        match self {
            Rejection::NotFound => "no such connection found\r\n".to_owned(),
            Rejection::Overloaded => "server overloaded, please try again later".to_owned(),
        }
    }
}

/// The first (and, until completion, only) line of the upload response:
/// the identifier, prefixed with the configured remote base address when
/// one is set, and closed by CRLF.
pub fn first_line(remote: &Option<String>, id: &String) -> (line: String)
    ensures
        match remote {
            Some(base) => line@ == base@ + "/"@ + id@ + "\r\n"@,
            None => line@ == id@ + "\r\n"@,
        },
{
    let mut line = String::new();
    match remote {
        Some(base) => {
            line.append(base.as_str());
            line.append("/");
            line.append(id.as_str());
            line.append("\r\n");
            proof {
                assert(line@ =~= base@ + "/"@ + id@ + "\r\n"@);
            }
        },
        None => {
            line.append(id.as_str());
            line.append("\r\n");
            proof {
                assert(line@ =~= id@ + "\r\n"@);
            }
        },
    }
    line
}

/// Value of the `Content-Disposition` header attached to a download when
/// the sender suggested a filename.
pub fn content_disposition_value(display_name: &String) -> (value: String)
    ensures
        value@ == "attachment; filename=\""@ + display_name@ + "\""@,
{
    let mut value = String::from_str("attachment; filename=\"");
    value.append(display_name.as_str());
    value.append("\"");
    proof {
        assert(value@ =~= "attachment; filename=\""@ + display_name@ + "\""@);
    }
    value
}

/// Body of the liveness response: the configured motto, or nothing.
pub fn index_body(motto: &Option<String>) -> (body: String)
    ensures
        match motto {
            Some(m) => body@ == m@,
            None => body@ == Seq::<char>::empty(),
        },
{
    match motto {
        Some(m) => m.clone(),
        None => String::new(),
    }
}

} // verus!
