//! Inspect socket locators: `unix:///absolute/path.sock` or `tcp://host:port`.
use vstd::prelude::*;
use crate::text::{
    chars_of, find, find_char, has_prefix, owned, piece, push_str, starts_with, string_of, trim,
    trimmed,
};

verus! {

/// Where an inspect endpoint listens.
#[derive(Clone, Debug, PartialEq, Eq)]
pub enum Endpoint {
    Unix(String),
    Tcp(String),
}

/// Why a socket locator was refused.
#[derive(Clone, Debug, PartialEq, Eq)]
pub struct Error {
    message: String,
}

/// An endpoint as plain values.
pub enum EndpointView {
    Unix(Seq<char>),
    Tcp(Seq<char>),
}

impl View for Endpoint {
    type V = EndpointView;

    open spec fn view(&self) -> EndpointView {
        match self {
            Endpoint::Unix(p) => EndpointView::Unix(p@),
            Endpoint::Tcp(a) => EndpointView::Tcp(a@),
        }
    }
}

impl View for Error {
    type V = Seq<char>;

    closed spec fn view(&self) -> Seq<char> {
        self.message@
    }
}

/// The locator an endpoint is written as.
pub open spec fn endpoint_text(e: EndpointView) -> Seq<char> {
    match e {
        EndpointView::Unix(p) => "unix://"@ + p,
        EndpointView::Tcp(a) => "tcp://"@ + a,
    }
}

/// What a `tcp://` address is checked for.
pub open spec fn tcp_check(addr: Seq<char>) -> Result<(), Seq<char>> {
    if trim(addr).len() == 0 {
        Err("tcp socket endpoint must include host:port"@)
    } else if find(addr, ':') is None {
        Err("tcp socket endpoint must include a port"@)
    } else {
        Ok(())
    }
}

/// What parsing the locator `value` gives.
pub open spec fn parse_text(value: Seq<char>) -> Result<EndpointView, Seq<char>> {
    let v = trim(value);
    if v.len() == 0 {
        Err("socket endpoint must not be empty"@)
    } else if starts_with(v, "unix://"@) {
        let path = v.skip("unix://"@.len() as int);
        if path.len() == 0 {
            Err("unix socket endpoint must include a path"@)
        } else if path[0] != '/' {
            Err("unix socket endpoint must use unix:///absolute/path.sock form"@)
        } else {
            Ok(EndpointView::Unix(path))
        }
    } else if starts_with(v, "tcp://"@) {
        let addr = v.skip("tcp://"@.len() as int);
        match tcp_check(addr) {
            Err(e) => Err(e),
            Ok(_) => Ok(EndpointView::Tcp(addr)),
        }
    } else {
        Err(
            "socket endpoint must use unix:///path.sock form, or tcp://host:port on non-Unix platforms"@,
        )
    }
}

impl Error {
    fn new(message: &str) -> (r: Error)
        ensures
            r@ == message@,
    {
        Error { message: owned(message) }
    }

    /// The message of this error.
    pub fn to_string(&self) -> (r: String)
        ensures
            r@ == self@,
    {
        self.message.clone()
    }
}

impl Endpoint {
    /// Parses a socket locator.
    pub fn parse(value: &str) -> (r: Result<Endpoint, Error>)
        ensures
            match parse_text(value@) {
                Ok(e) => r matches Ok(x) && x@ == e,
                Err(m) => r matches Err(x) && x@ == m,
            },
    {
        let all = chars_of(value);
        let v = trimmed(&all);
        if v.len() == 0 {
            return Err(Error::new("socket endpoint must not be empty"));
        }
        let unix = chars_of("unix://");
        if has_prefix(&v, &unix) {
            let path = piece(&v, unix.len(), v.len());
            if path.len() == 0 {
                return Err(Error::new("unix socket endpoint must include a path"));
            }
            if path[0] != '/' {
                return Err(
                    Error::new("unix socket endpoint must use unix:///absolute/path.sock form"),
                );
            }
            return Ok(Endpoint::Unix(string_of(&path)));
        }
        let tcp = chars_of("tcp://");
        if has_prefix(&v, &tcp) {
            let addr = piece(&v, tcp.len(), v.len());
            validate(&addr)?;
            return Ok(Endpoint::Tcp(string_of(&addr)));
        }
        Err(
            Error::new(
                "socket endpoint must use unix:///path.sock form, or tcp://host:port on non-Unix platforms",
            ),
        )
    }

    /// The locator this endpoint is written as.
    pub fn to_string(&self) -> (r: String)
        ensures
            r@ == endpoint_text(self@),
    {
        match self {
            Endpoint::Unix(path) => {
                let mut s = owned("unix://");
                push_str(&mut s, path.as_str());
                s
            },
            Endpoint::Tcp(addr) => {
                let mut s = owned("tcp://");
                push_str(&mut s, addr.as_str());
                s
            },
        }
    }
}

fn validate(addr: &Vec<char>) -> (r: Result<(), Error>)
    ensures
        match tcp_check(addr@) {
            Ok(_) => r is Ok,
            Err(m) => r matches Err(x) && x@ == m,
        },
{
    let t = trimmed(addr);
    if t.len() == 0 {
        return Err(Error::new("tcp socket endpoint must include host:port"));
    }
    if find_char(addr, ':').is_none() {
        return Err(Error::new("tcp socket endpoint must include a port"));
    }
    Ok(())
}

} // verus!
