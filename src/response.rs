//! A CGI response under construction: header lines, content lines and a
//! status that is set at most once.
use vstd::prelude::*;

verus! {

#[derive(Debug)]
pub struct Response {
    headers: Vec<String>,
    content: Vec<String>,
    status_code: u16,
}

/// The reason phrase of each status code that is answered as given; any
/// other code is answered as 500.
pub open spec fn status_entry(code: u16) -> (u16, Seq<char>) {
    if code == 200 {
        (200, "OK"@)
    } else if code == 201 {
        (201, "Created"@)
    } else if code == 202 {
        (202, "Accepted"@)
    } else if code == 204 {
        (204, "No Content"@)
    } else if code == 304 {
        (304, "Not Modified"@)
    } else if code == 400 {
        (400, "Bad Request"@)
    } else if code == 401 {
        (401, "Unauthorized"@)
    } else if code == 403 {
        (403, "Forbidden"@)
    } else if code == 404 {
        (404, "Not Found"@)
    } else if code == 405 {
        (405, "Method Not Allowed"@)
    } else if code == 501 {
        (501, "Not Implemented"@)
    } else if code == 503 {
        (503, "Service Unavailable"@)
    } else {
        (500, "Internal Server Error"@)
    }
}

pub open spec fn digit_char(d: int) -> char {
    (('0' as u32) + d) as char
}

/// The three decimal digits of `n`.
pub open spec fn three_digits(n: int) -> Seq<char> {
    seq![digit_char(n / 100), digit_char((n / 10) % 10), digit_char(n % 10)]
}

/// The header line that carries status `code`.
pub open spec fn status_header(code: u16) -> Seq<char> {
    let (c, text) = status_entry(code);
    "Status: "@ + three_digits(c as int) + " "@ + text
}

fn digit_str(d: u16) -> (r: &'static str)
    requires
        d < 10,
    ensures
        r@ == seq![digit_char(d as int)],
{
    proof {
        reveal_strlit("0");
        reveal_strlit("1");
        reveal_strlit("2");
        reveal_strlit("3");
        reveal_strlit("4");
        reveal_strlit("5");
        reveal_strlit("6");
        reveal_strlit("7");
        reveal_strlit("8");
        reveal_strlit("9");
    }
    let r = match d {
        0 => "0",
        1 => "1",
        2 => "2",
        3 => "3",
        4 => "4",
        5 => "5",
        6 => "6",
        7 => "7",
        8 => "8",
        _ => "9",
    };
    assert(r@ =~= seq![digit_char(d as int)]);
    r
}

impl Response {
    pub closed spec fn spec_headers(&self) -> Seq<Seq<char>> {
        self.headers@.map_values(|s: String| s@)
    }

    pub closed spec fn spec_content(&self) -> Seq<Seq<char>> {
        self.content@.map_values(|s: String| s@)
    }

    pub closed spec fn spec_status_code(&self) -> u16 {
        self.status_code
    }

    /// An empty response with no status yet.
    pub fn new() -> (r: Response)
        ensures
            r.spec_headers().len() == 0,
            r.spec_content().len() == 0,
            r.spec_status_code() == 0,
    {
        let r = Response { headers: Vec::new(), content: Vec::new(), status_code: 0 };
        assert(r.spec_headers() =~= Seq::empty());
        assert(r.spec_content() =~= Seq::empty());
        r
    }

    pub fn add_header(&mut self, header: &str)
        ensures
            final(self).spec_headers() == old(self).spec_headers().push(header@),
            final(self).spec_content() == old(self).spec_content(),
            final(self).spec_status_code() == old(self).spec_status_code(),
    {
        self.headers.push(String::from_str(header));
        assert(self.spec_headers() =~= old(self).spec_headers().push(header@));
    }

    pub fn add_content(&mut self, content: &str)
        ensures
            final(self).spec_content() == old(self).spec_content().push(content@),
            final(self).spec_headers() == old(self).spec_headers(),
            final(self).spec_status_code() == old(self).spec_status_code(),
    {
        self.content.push(String::from_str(content));
        assert(self.spec_content() =~= old(self).spec_content().push(content@));
    }

    /// Sets the status, once: adds its header line and records the code
    /// answered. Once a status is set, later calls change nothing.
    pub fn set_status_code(&mut self, status_code: u16)
        ensures
            old(self).spec_status_code() == 0 ==> final(self).spec_status_code() == status_entry(status_code).0
                && final(self).spec_headers() == old(self).spec_headers().push(status_header(status_code)),
            old(self).spec_status_code() != 0 ==> final(self).spec_status_code() == old(self).spec_status_code()
                && final(self).spec_headers() == old(self).spec_headers(),
            final(self).spec_content() == old(self).spec_content(),
    {
        if self.status_code == 0 {
            let (code, text) = Response::status_code_text(status_code);
            let mut line = String::from_str("Status: ");
            line.append(digit_str(code / 100));
            line.append(digit_str((code / 10) % 10));
            line.append(digit_str(code % 10));
            line.append(" ");
            line.append(text);
            assert(line@ =~= status_header(status_code));
            self.headers.push(line);
            self.status_code = code;
            assert(self.spec_headers() =~= old(self).spec_headers().push(status_header(status_code)));
        }
    }

    /// The header lines, in the order they were added.
    pub fn headers(&self) -> (r: &Vec<String>)
        ensures
            r@.map_values(|s: String| s@) == self.spec_headers(),
    {
        &self.headers
    }

    /// The content lines, in the order they were added.
    pub fn content(&self) -> (r: &Vec<String>)
        ensures
            r@.map_values(|s: String| s@) == self.spec_content(),
    {
        &self.content
    }

    pub fn status_code(&self) -> (r: u16)
        ensures
            r == self.spec_status_code(),
    {
        self.status_code
    }

    /// The code answered for `status_code`, and its reason phrase.
    pub fn status_code_text(status_code: u16) -> (r: (u16, &'static str))
        ensures
            (r.0, r.1@) == status_entry(status_code),
    {
        match status_code {
            200 => (200, "OK"),
            201 => (201, "Created"),
            202 => (202, "Accepted"),
            204 => (204, "No Content"),
            304 => (304, "Not Modified"),
            400 => (400, "Bad Request"),
            401 => (401, "Unauthorized"),
            403 => (403, "Forbidden"),
            404 => (404, "Not Found"),
            405 => (405, "Method Not Allowed"),
            501 => (501, "Not Implemented"),
            503 => (503, "Service Unavailable"),
            _ => (500, "Internal Server Error"),
        }
    }
}

} // verus!
