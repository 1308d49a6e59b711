//! The uniform error taxonomy and the interpretation of non-success
//! responses: classification by status code and the bounded capture of the
//! response body.

use crate::headers::pairs_view;
use crate::strutil::{chars_to_string, dec_str, push_dec, string_to_chars};
use vstd::prelude::*;

verus! {

/// The classification of a failure.
#[derive(Clone, Copy, Debug, PartialEq, Eq, Structural)]
pub enum ErrorKind {
    NotFound,
    PermissionDenied,
    BackendConfigurationInvalid,
    Unexpected,
}

/// How a non-success HTTP status classifies.
pub open spec fn classify_status_spec(status: u16) -> ErrorKind {
    if status == 404 {
        ErrorKind::NotFound
    } else if status == 403 {
        ErrorKind::PermissionDenied
    } else {
        ErrorKind::Unexpected
    }
}

/// Classifies a non-success HTTP status: 404 is `NotFound`, 403 is
/// `PermissionDenied`, and every other status is `Unexpected`.
pub fn classify_status(status: u16) -> (k: ErrorKind)
    ensures
        k == classify_status_spec(status),
{
    if status == 404 {
        ErrorKind::NotFound
    } else if status == 403 {
        ErrorKind::PermissionDenied
    } else {
        ErrorKind::Unexpected
    }
}

/// At most this many bytes of an error response body are kept.
pub const ERROR_BODY_CAP: usize = 4096;

/// A classified failure.
#[derive(Debug)]
pub enum Error {
    /// The configuration could not be validated or resolved.
    Backend { kind: ErrorKind, message: String },
    /// One object operation failed; the response that caused it is kept in
    /// summary form: status, headers, and the capped body.
    Object {
        kind: ErrorKind,
        op: String,
        path: String,
        status: u16,
        headers: Vec<(String, String)>,
        body: Vec<u8>,
    },
}

impl Error {
    pub open spec fn kind_spec(&self) -> ErrorKind {
        match self {
            Error::Backend { kind, .. } => *kind,
            Error::Object { kind, .. } => *kind,
        }
    }

    pub fn kind(&self) -> (k: ErrorKind)
        ensures
            k == self.kind_spec(),
    {
        match self {
            Error::Backend { kind, .. } => *kind,
            Error::Object { kind, .. } => *kind,
        }
    }
}

/// The rendering of one body byte in an error message: printable ASCII
/// stands for itself, everything else becomes `.`.
pub open spec fn printable_byte(b: u8) -> char {
    if 0x20 <= b && b < 0x7f {
        b as char
    } else {
        '.'
    }
}

/// The body of an error response as message text.
pub open spec fn body_text(body: Seq<u8>) -> Seq<char> {
    body.map_values(|b: u8| printable_byte(b))
}

/// The headers of an error response as message text, `name: value; ` each.
pub open spec fn headers_summary(hs: Seq<(Seq<char>, Seq<char>)>) -> Seq<char>
    decreases hs.len(),
{
    if hs.len() == 0 {
        Seq::empty()
    } else {
        headers_summary(hs.drop_last()) + hs.last().0 + ": "@ + hs.last().1 + "; "@
    }
}

/// The cause message of an error: a configuration error carries its own
/// text; a failed operation embeds the response's status and headers in
/// summary form plus the (possibly truncated) body text.
pub open spec fn message_spec(e: &Error) -> Seq<char> {
    match e {
        Error::Backend { message, .. } => message@,
        Error::Object { op, path, status, headers, body, .. } => "operation "@ + op@ + " on "@
            + path@ + " failed: status code "@ + dec_str(*status as nat) + ", headers: "@
            + headers_summary(pairs_view(headers@)) + "body: "@ + body_text(body@),
    }
}

impl Error {
    /// Renders the cause message.
    pub fn message(&self) -> (r: String)
        ensures
            r@ == message_spec(self),
    {
        match self {
            Error::Backend { message, .. } => message.clone(),
            Error::Object { op, path, status, headers, body, .. } => {
                let mut out = string_to_chars("operation ");
                let mut part = string_to_chars(op.as_str());
                out.append(&mut part);
                let mut part = string_to_chars(" on ");
                out.append(&mut part);
                let mut part = string_to_chars(path.as_str());
                out.append(&mut part);
                let mut part = string_to_chars(" failed: status code ");
                out.append(&mut part);
                push_dec(*status as u64, &mut out);
                let mut part = string_to_chars(", headers: ");
                out.append(&mut part);
                let ghost head = out@;
                let mut i: usize = 0;
                while i < headers.len()
                    invariant
                        i <= headers.len(),
                        out@ == head + headers_summary(pairs_view(headers@.take(i as int))),
                    decreases headers.len() - i,
                {
                    let mut part = string_to_chars(headers[i].0.as_str());
                    out.append(&mut part);
                    let mut part = string_to_chars(": ");
                    out.append(&mut part);
                    let mut part = string_to_chars(headers[i].1.as_str());
                    out.append(&mut part);
                    let mut part = string_to_chars("; ");
                    out.append(&mut part);
                    i = i + 1;
                    proof {
                        let taken = headers@.take(i as int);
                        assert(pairs_view(taken).drop_last() =~= pairs_view(
                            headers@.take(i - 1),
                        ));
                        assert(out@ =~= head + headers_summary(pairs_view(taken)));
                    }
                }
                proof {
                    assert(headers@.take(headers@.len() as int) =~= headers@);
                }
                let mut part = string_to_chars("body: ");
                out.append(&mut part);
                let ghost head2 = out@;
                let mut j: usize = 0;
                while j < body.len()
                    invariant
                        j <= body.len(),
                        out@ == head2 + body_text(body@.take(j as int)),
                    decreases body.len() - j,
                {
                    let b = body[j];
                    if 0x20 <= b && b < 0x7f {
                        out.push(b as char);
                    } else {
                        out.push('.');
                    }
                    j = j + 1;
                    proof {
                        assert(out@ =~= head2 + body_text(body@.take(j as int)));
                    }
                }
                proof {
                    assert(body@.take(body@.len() as int) =~= body@);
                }
                chars_to_string(&out)
            },
        }
    }
}

/// Appends one response chunk to an error-body buffer, never letting the
/// buffer grow past `ERROR_BODY_CAP` bytes; returns whether more input is
/// still wanted, so a reader can stop at the cap instead of buffering a
/// misbehaving responder's output without bound.
pub fn accumulate_error_body(buf: &mut Vec<u8>, chunk: &[u8]) -> (more: bool)
    requires
        old(buf)@.len() <= ERROR_BODY_CAP,
    ensures
        final(buf)@ == if old(buf)@.len() + chunk@.len() <= ERROR_BODY_CAP {
            old(buf)@ + chunk@
        } else {
            (old(buf)@ + chunk@).take(ERROR_BODY_CAP as int)
        },
        final(buf)@.len() <= ERROR_BODY_CAP,
        more == (final(buf)@.len() < ERROR_BODY_CAP),
{
    let room: usize = ERROR_BODY_CAP - buf.len();
    let take: usize = if chunk.len() < room {
        chunk.len()
    } else {
        room
    };
    let mut i: usize = 0;
    while i < take
        invariant
            i <= take,
            take <= chunk@.len(),
            buf@ == old(buf)@ + chunk@.subrange(0, i as int),
        decreases take - i,
    {
        buf.push(chunk[i]);
        i = i + 1;
        proof {
            assert(buf@ =~= old(buf)@ + chunk@.subrange(0, i as int));
        }
    }
    proof {
        if old(buf)@.len() + chunk@.len() <= ERROR_BODY_CAP {
            assert(buf@ =~= old(buf)@ + chunk@);
        } else {
            assert(buf@ =~= (old(buf)@ + chunk@).take(ERROR_BODY_CAP as int));
        }
    }
    buf.len() < ERROR_BODY_CAP
}

} // verus!
