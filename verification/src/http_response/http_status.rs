//! Response status codes paired invariantly with their reason phrases.
use crate::wire::ascii_seq;
use vstd::prelude::*;

verus! {

/// A status code together with its fixed reason phrase. The engine only ever
/// constructs the five pairings below, and [`HttpStatus::wf`] says a code
/// never appears with a different phrase.
#[derive(Clone, Copy, Debug, PartialEq)]
pub struct HttpStatus {
    pub code: u16,
    pub message: &'static str,
}

/// The status-line token of a well-formed status, as bytes: the decimal
/// code, a space, and the reason phrase.
pub open spec fn status_token(code: u16) -> Seq<u8> {
    if code == 200 {
        ascii_seq("200 OK"@)
    } else if code == 201 {
        ascii_seq("201 Created"@)
    } else if code == 400 {
        ascii_seq("400 Bad Request"@)
    } else if code == 404 {
        ascii_seq("404 Not Found"@)
    } else {
        ascii_seq("500 Internal Server Error"@)
    }
}

impl HttpStatus {
    /// The code/phrase pairings the engine emits.
    pub open spec fn wf(&self) -> bool {
        (self.code == 200 && self.message@ == "OK"@) || (self.code == 201 && self.message@
            == "Created"@) || (self.code == 400 && self.message@ == "Bad Request"@) || (self.code
            == 404 && self.message@ == "Not Found"@) || (self.code == 500 && self.message@
            == "Internal Server Error"@)
    }

    /// 200 OK.
    pub fn ok() -> (s: HttpStatus)
        ensures
            s.code == 200,
            s.wf(),
    {
        HttpStatus { code: 200, message: "OK" }
    }

    /// 201 Created.
    pub fn created() -> (s: HttpStatus)
        ensures
            s.code == 201,
            s.wf(),
    {
        HttpStatus { code: 201, message: "Created" }
    }

    /// 400 Bad Request.
    pub fn bad_request() -> (s: HttpStatus)
        ensures
            s.code == 400,
            s.wf(),
    {
        HttpStatus { code: 400, message: "Bad Request" }
    }

    /// 404 Not Found.
    pub fn not_found() -> (s: HttpStatus)
        ensures
            s.code == 404,
            s.wf(),
    {
        HttpStatus { code: 404, message: "Not Found" }
    }

    /// 500 Internal Server Error.
    pub fn internal_server_error() -> (s: HttpStatus)
        ensures
            s.code == 500,
            s.wf(),
    {
        HttpStatus { code: 500, message: "Internal Server Error" }
    }

    /// The status-line token of this status, as bytes.
    pub fn token_bytes(&self) -> (v: Vec<u8>)
        requires
            self.wf(),
        ensures
            v@ == status_token(self.code),
    {
        let mut v: Vec<u8> = Vec::new();
        if self.code == 200 {
            proof {
                reveal_strlit("200 OK");
            }
            crate::wire::push_ascii(&mut v, "200 OK");
        } else if self.code == 201 {
            proof {
                reveal_strlit("201 Created");
            }
            crate::wire::push_ascii(&mut v, "201 Created");
        } else if self.code == 400 {
            proof {
                reveal_strlit("400 Bad Request");
            }
            crate::wire::push_ascii(&mut v, "400 Bad Request");
        } else if self.code == 404 {
            proof {
                reveal_strlit("404 Not Found");
            }
            crate::wire::push_ascii(&mut v, "404 Not Found");
        } else {
            proof {
                reveal_strlit("500 Internal Server Error");
            }
            crate::wire::push_ascii(&mut v, "500 Internal Server Error");
        }
        proof {
            assert(Seq::<u8>::empty() + status_token(self.code) =~= status_token(self.code));
        }
        v
    }
}

} // verus!
