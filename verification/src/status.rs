//! Status lines of the HTTP responses a node sends.

use vstd::prelude::*;

verus! {

/// Supported HTTP statuses.
pub enum HttpStatus {
    OK,
    NotFound,
    Created,
}

impl HttpStatus {
    /// The status line, with the blank line that ends the header, as text.
    pub open spec fn line(self) -> Seq<char> {
        match self {
            HttpStatus::OK => "HTTP/1.1 200 OK\r\n\r\n"@,
            HttpStatus::NotFound => "HTTP/1.1 404 NOT FOUND\r\n\r\n"@,
            HttpStatus::Created => "HTTP/1.1 201 CREATED\r\n\r\n"@,
        }
    }

    pub fn as_str(&self) -> (text: &str)
        ensures
            text@ == self.line(),
    {
        match *self {
            HttpStatus::OK => "HTTP/1.1 200 OK\r\n\r\n",
            HttpStatus::NotFound => "HTTP/1.1 404 NOT FOUND\r\n\r\n",
            HttpStatus::Created => "HTTP/1.1 201 CREATED\r\n\r\n",
        }
    }
}

} // verus!
