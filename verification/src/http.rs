//! The handling of one request: which lines make up its head, which page
//! answers it, and how the answer is framed.
//!
//! Nothing here touches a connection. The caller reads the lines and feeds
//! them to a `RequestHead`, asks `RequestHead::plan` what to do, and writes
//! the bytes that `response` framed.

use crate::text::{decimal, decimal_text, same_text};
use vstd::prelude::*;
use vstd::string::*;
use vstd::utf8::encode_utf8;

verus! {

/// Why a line of the request could not be read.
#[derive(Clone, Copy, Debug, PartialEq, Eq, Structural)]
pub enum ReadError {
    /// A parameter of the read was wrong.
    InvalidInput,
    /// The bytes read were no valid text.
    InvalidData,
    /// Any other failure.
    Other,
}

/// The pages that the server holds.
#[derive(Clone, Copy, Debug, PartialEq, Eq, Structural)]
pub enum Page {
    Hello,
    BadRequest,
    NotFound,
    ServerError,
}

impl Page {
    /// Where the page is kept.
    pub open spec fn path_text(self) -> Seq<char> {
        match self {
            Page::Hello => "contents/hello.html"@,
            Page::BadRequest => "contents/400.html"@,
            Page::NotFound => "contents/404.html"@,
            Page::ServerError => "contents/500.html"@,
        }
    }

    /// The status line that is sent with the page.
    pub open spec fn status_text(self) -> Seq<char> {
        match self {
            Page::Hello => "HTTP/1.1 200 OK"@,
            Page::BadRequest => "HTTP/1.1 400 Bad Request"@,
            Page::NotFound => "HTTP/1.1 404 Not Found"@,
            Page::ServerError => "HTTP/1.1 500 Internal Server Error"@,
        }
    }

    /// The page that is kept at a path, if any.
    pub open spec fn at_path(path: Seq<char>) -> Option<Page> {
        if path == Page::Hello.path_text() {
            Some(Page::Hello)
        } else if path == Page::BadRequest.path_text() {
            Some(Page::BadRequest)
        } else if path == Page::NotFound.path_text() {
            Some(Page::NotFound)
        } else if path == Page::ServerError.path_text() {
            Some(Page::ServerError)
        } else {
            None
        }
    }

    /// Where the page is kept.
    pub fn path(&self) -> (path: &'static str)
        ensures
            path@ == self.path_text(),
    {
        match self {
            Page::Hello => "contents/hello.html",
            Page::BadRequest => "contents/400.html",
            Page::NotFound => "contents/404.html",
            Page::ServerError => "contents/500.html",
        }
    }

    /// The status line that is sent with the page.
    pub fn status_line(&self) -> (status: &'static str)
        ensures
            status@ == self.status_text(),
    {
        match self {
            Page::Hello => "HTTP/1.1 200 OK",
            Page::BadRequest => "HTTP/1.1 400 Bad Request",
            Page::NotFound => "HTTP/1.1 404 Not Found",
            Page::ServerError => "HTTP/1.1 500 Internal Server Error",
        }
    }

    /// Finds the page that is kept at a path.
    pub fn from_path(path: &str) -> (page: Option<Page>)
        ensures
            page == Page::at_path(path@),
    {
        if same_text(path, "contents/hello.html") {
            Some(Page::Hello)
        } else if same_text(path, "contents/400.html") {
            Some(Page::BadRequest)
        } else if same_text(path, "contents/404.html") {
            Some(Page::NotFound)
        } else if same_text(path, "contents/500.html") {
            Some(Page::ServerError)
        } else {
            None
        }
    }
}

/// How a request is answered: with which page, and after how long a pause.
#[derive(Clone, Copy, Debug, PartialEq, Eq, Structural)]
pub struct Route {
    pub page: Page,
    /// Seconds to wait before the page is sent.
    pub delay: u64,
}

/// The route of a request line. Two requests are known, and the two lines
/// `400` and `500` ask for the pages of those errors; every other line gets
/// the page for what is not found.
pub open spec fn route_of(line: Seq<char>) -> Route {
    if line == "GET / HTTP/1.1"@ {
        Route { page: Page::Hello, delay: 0 }
    } else if line == "GET /sleep HTTP/1.1"@ {
        Route { page: Page::Hello, delay: 5 }
    } else if line == "400"@ {
        Route { page: Page::BadRequest, delay: 0 }
    } else if line == "500"@ {
        Route { page: Page::ServerError, delay: 0 }
    } else {
        Route { page: Page::NotFound, delay: 0 }
    }
}

/// Routes a request line.
pub fn route(line: &str) -> (found: Route)
    ensures
        found == route_of(line@),
{
    if same_text(line, "GET / HTTP/1.1") {
        Route { page: Page::Hello, delay: 0 }
    } else if same_text(line, "GET /sleep HTTP/1.1") {
        Route { page: Page::Hello, delay: 5 }
    } else if same_text(line, "400") {
        Route { page: Page::BadRequest, delay: 0 }
    } else if same_text(line, "500") {
        Route { page: Page::ServerError, delay: 0 }
    } else {
        Route { page: Page::NotFound, delay: 0 }
    }
}

/// The line that stands for one attempt to read a line: the line itself, or
/// for a failed read the line that names the error to answer with.
pub open spec fn line_text(read: Result<String, ReadError>) -> Seq<char> {
    match read {
        Ok(line) => line@,
        Err(ReadError::InvalidInput) => "400\r\n"@,
        Err(ReadError::InvalidData) => "400\r\n"@,
        Err(ReadError::Other) => "500\r\n"@,
    }
}

/// Turns the outcome of reading one line into a line of the request.
pub fn line_of(read: Result<String, ReadError>) -> (line: String)
    ensures
        line@ == line_text(read),
{
    match read {
        Ok(line) => line,
        Err(ReadError::InvalidInput) => String::from_str("400\r\n"),
        Err(ReadError::InvalidData) => String::from_str("400\r\n"),
        Err(ReadError::Other) => String::from_str("500\r\n"),
    }
}

/// What to do with a request once its head is read.
#[derive(Clone, Copy, Debug, PartialEq, Eq, Structural)]
pub enum Plan {
    /// The request had no line at all: there is nothing to answer.
    Blank,
    /// Answer along this route.
    Serve(Route),
}

/// The state of a `RequestHead`.
pub struct HeadView {
    /// The lines taken so far, none of them empty.
    pub lines: Seq<Seq<char>>,
    /// An empty line has ended the head.
    pub complete: bool,
}

impl HeadView {
    /// One more line is read: an empty line ends the head, any other line
    /// joins it; a head that has ended takes no more lines.
    pub open spec fn feed(self, line: Seq<char>) -> HeadView {
        if self.complete {
            self
        } else if line.len() == 0 {
            HeadView { complete: true, ..self }
        } else {
            HeadView { lines: self.lines.push(line), ..self }
        }
    }

    /// The head before any line is read.
    pub open spec fn start() -> HeadView {
        HeadView { lines: Seq::empty(), complete: false }
    }

    /// The head after these lines were read, one after the other.
    pub open spec fn fed(lines: Seq<Seq<char>>) -> HeadView
        decreases lines.len(),
    {
        if lines.len() == 0 {
            Self::start()
        } else {
            Self::fed(lines.drop_last()).feed(lines.last())
        }
    }

    /// Where the head of these lines ends: at the first empty line, or
    /// behind the last line if none is empty.
    pub open spec fn is_end(lines: Seq<Seq<char>>, end: int) -> bool {
        &&& 0 <= end <= lines.len()
        &&& forall|i: int| 0 <= i < end ==> (#[trigger] lines[i]).len() > 0
        &&& end < lines.len() ==> lines[end].len() == 0
    }

    /// The head of a request is its lines before the first empty line, and
    /// it is complete if there is an empty line.
    pub proof fn theorem_head_ends_at_empty_line(lines: Seq<Seq<char>>) -> (end: int)
        ensures
            Self::is_end(lines, end),
            Self::fed(lines).lines == lines.take(end),
            Self::fed(lines).complete <==> end < lines.len(),
        decreases lines.len(),
    {
        if lines.len() == 0 {
            0
        } else {
            let before = lines.drop_last();
            let end = Self::theorem_head_ends_at_empty_line(before);
            assert forall|i: int| 0 <= i < end implies (#[trigger] lines[i]).len() > 0 by {
                assert(before[i] == lines[i]);
            }
            if end == before.len() && lines.last().len() > 0 {
                end + 1
            } else {
                end
            }
        }
    }

    /// What to do with the request.
    pub open spec fn plan(self) -> Plan {
        if self.lines.len() == 0 {
            Plan::Blank
        } else {
            Plan::Serve(route_of(self.lines[0]))
        }
    }

    /// Every line followed by a line feed, one after the other.
    pub open spec fn listing(lines: Seq<Seq<char>>) -> Seq<char>
        decreases lines.len(),
    {
        if lines.len() == 0 {
            Seq::empty()
        } else {
            Self::listing(lines.drop_last()) + lines.last() + "\n"@
        }
    }
}

/// The head of a request: its lines up to the first empty one.
pub struct RequestHead {
    lines: Vec<String>,
    complete: bool,
}

impl View for RequestHead {
    type V = HeadView;

    closed spec fn view(&self) -> HeadView {
        HeadView {
            lines: Seq::new(self.lines@.len(), |i: int| self.lines@[i]@),
            complete: self.complete,
        }
    }
}

impl RequestHead {
    /// A head with no line yet.
    pub fn new() -> (head: RequestHead)
        ensures
            head@ == HeadView::start(),
    {
        let head = RequestHead { lines: Vec::new(), complete: false };
        assert(head@.lines =~= HeadView::start().lines);
        head
    }

    /// Takes the outcome of reading the next line, and says whether to read
    /// on.
    pub fn feed(&mut self, read: Result<String, ReadError>) -> (more: bool)
        ensures
            final(self)@ == old(self)@.feed(line_text(read)),
            more == !final(self)@.complete,
    {
        if self.complete {
            return false;
        }
        let ghost before = self@;
        let line = line_of(read);
        if line.as_str().is_empty() {
            self.complete = true;
            false
        } else {
            self.lines.push(line);
            assert(self@.lines =~= before.lines.push(line@));
            true
        }
    }

    /// Whether an empty line has ended the head.
    pub fn is_complete(&self) -> (complete: bool)
        ensures
            complete == self@.complete,
    {
        self.complete
    }

    /// The first line of the request, if it has one.
    pub fn request_line(&self) -> (first: Option<&str>)
        ensures
            self@.lines.len() == 0 ==> first is None,
            self@.lines.len() > 0 ==> first is Some && first.unwrap()@ == self@.lines[0],
    {
        if self.lines.len() == 0 {
            None
        } else {
            Some(self.lines[0].as_str())
        }
    }

    /// Decides what to do with the request: nothing if it had no line, else
    /// what its first line asks for.
    pub fn plan(&self) -> (plan: Plan)
        ensures
            plan == self@.plan(),
    {
        match self.request_line() {
            None => Plan::Blank,
            Some(line) => Plan::Serve(route(line)),
        }
    }

    /// Lists the lines of the head, each followed by a line feed.
    pub fn listing(&self) -> (text: String)
        ensures
            text@ == HeadView::listing(self@.lines),
    {
        let mut text = String::new();
        let mut at: usize = 0;
        while at < self.lines.len()
            invariant
                at <= self.lines@.len(),
                text@ == HeadView::listing(self@.lines.take(at as int)),
            decreases self.lines@.len() - at,
        {
            text.append(self.lines[at].as_str());
            text.append("\n");
            proof {
                let next = self@.lines.take(at + 1);
                assert(next.drop_last() =~= self@.lines.take(at as int));
            }
            at += 1;
        }
        assert(self@.lines.take(at as int) =~= self@.lines);
        text
    }
}

/// The text of a response: the status line, the length of the body in bytes,
/// an empty line, and the body.
pub open spec fn response_text(status: Seq<char>, body: Seq<char>) -> Seq<char> {
    status + "\r\nContent-Length: "@ + decimal_text(encode_utf8(body).len()) + "\r\n\r\n"@ + body
}

/// Frames a response, as the bytes to send.
pub fn response(status: &str, body: &str) -> (bytes: Vec<u8>)
    ensures
        bytes@ == encode_utf8(response_text(status@, body@)),
{
    let length: usize = body.as_bytes().len();
    let mut text = String::from_str(status);
    text.append("\r\nContent-Length: ");
    text.append(decimal(length).as_str());
    text.append("\r\n\r\n");
    text.append(body);
    text.as_str().as_bytes_vec()
}

/// The text of the log entry that records a request.
pub open spec fn arrival_text(peer: Seq<char>, line: Seq<char>) -> Seq<char> {
    "from "@ + peer + ": "@ + line
}

/// Words the log entry that records a request: who sent it, and its first
/// line.
pub fn arrival_message(peer: &str, line: &str) -> (text: String)
    ensures
        text@ == arrival_text(peer@, line@),
{
    let mut text = String::from_str("from ");
    text.append(peer);
    text.append(": ");
    text.append(line);
    text
}

/// The text of the log entry that records a response that could not be sent.
pub open spec fn failure_text(peer: Seq<char>, cause: Seq<char>, lines: Seq<Seq<char>>) -> Seq<
    char,
> {
    "Could not succesfully respond to "@ + peer + ": "@ + cause + "\n"@ + HeadView::listing(lines)
}

/// Words the log entry that records a response that could not be sent: to
/// whom, why, and the head of the request.
pub fn failure_message(peer: &str, cause: &str, head: &RequestHead) -> (text: String)
    ensures
        text@ == failure_text(peer@, cause@, head@.lines),
{
    let mut text = String::from_str("Could not succesfully respond to ");
    text.append(peer);
    text.append(": ");
    text.append(cause);
    text.append("\n");
    text.append(head.listing().as_str());
    text
}

} // verus!
