//! Response headers: the status line `<code> <meta>` and what it means.
//!
//! The two-digit code falls into one of six classes by its tens digit. The
//! meta text is a prompt, a media type, a redirect target or a reason,
//! according to the class. Media types are parsed by the `mime` crate.

use crate::error::FetchError;
use crate::resource::{outcome_view, parsed_url, Resource, ResourceView, UrlError};
use crate::text::{find_from, slice, split_once, to_chars, to_string};
use mime::Mime;
use vstd::prelude::*;

verus! {

/// The error of the `mime` crate's parser, `mime::FromStrError`. Nothing is
/// known of its contents.
#[verifier::external_type_specification]
#[verifier::external_body]
pub struct ExFromStrError(mime::FromStrError);

/// The class of a status code.
#[derive(Clone, Copy, Debug, PartialEq, Eq, Structural)]
pub enum StatusClass {
    Input,
    Success,
    Redirect,
    TempFail,
    PermFail,
    Auth,
}

/// A media type, as far as the crawler reads it.
#[derive(Debug, PartialEq, Eq)]
pub struct MediaType {
    text: String,
    essence: String,
}

/// The mathematical content of a [`MediaType`].
pub ghost struct MediaTypeView {
    /// The media type in full, parameters included.
    pub text: Seq<char>,
    /// Type and subtype, without parameters.
    pub essence: Seq<char>,
}

/// A response header.
#[derive(Debug, PartialEq, Eq)]
pub enum GeminiHeader {
    /// The server asks for input, with this prompt.
    Input(String),
    /// A body of this media type follows.
    Success(MediaType),
    /// The resource is to be found at this target.
    Redirect(Resource),
    /// A temporary failure, with the server's reason.
    TempFail(String),
    /// A permanent failure, with the server's reason.
    PermFail(String),
    /// A client certificate is asked for, with the server's reason.
    Auth(String),
}

/// The mathematical content of a [`GeminiHeader`].
pub ghost enum HeaderView {
    Input(Seq<char>),
    Success(MediaTypeView),
    Redirect(ResourceView),
    TempFail(Seq<char>),
    PermFail(Seq<char>),
    Auth(Seq<char>),
}

impl View for MediaType {
    type V = MediaTypeView;

    closed spec fn view(&self) -> MediaTypeView {
        MediaTypeView { text: self.text@, essence: self.essence@ }
    }
}

impl View for GeminiHeader {
    type V = HeaderView;

    open spec fn view(&self) -> HeaderView {
        match self {
            GeminiHeader::Input(s) => HeaderView::Input(s@),
            GeminiHeader::Success(m) => HeaderView::Success(m@),
            GeminiHeader::Redirect(r) => HeaderView::Redirect(r@),
            GeminiHeader::TempFail(s) => HeaderView::TempFail(s@),
            GeminiHeader::PermFail(s) => HeaderView::PermFail(s@),
            GeminiHeader::Auth(s) => HeaderView::Auth(s@),
        }
    }
}

/// What the `mime` crate reads from `input`: the media type in full and its
/// essence, or nothing where `input` is no media type.
pub uninterp spec fn parsed_media_type(input: Seq<char>) -> Option<MediaTypeView>;

/// The essence of the protocol's native text format, `text/gemini`.
pub open spec fn gemini_text() -> Seq<char> {
    seq!['t', 'e', 'x', 't', '/', 'g', 'e', 'm', 'i', 'n', 'i']
}

/// The class of a status code: by its tens digit, from 1 to 6.
pub open spec fn class_of(code: int) -> Option<StatusClass> {
    if 10 <= code <= 19 {
        Some(StatusClass::Input)
    } else if 20 <= code <= 29 {
        Some(StatusClass::Success)
    } else if 30 <= code <= 39 {
        Some(StatusClass::Redirect)
    } else if 40 <= code <= 49 {
        Some(StatusClass::TempFail)
    } else if 50 <= code <= 59 {
        Some(StatusClass::PermFail)
    } else if 60 <= code <= 69 {
        Some(StatusClass::Auth)
    } else {
        None
    }
}

/// The value of `c` as a decimal digit, where it is one.
pub open spec fn digit(c: char) -> Option<int> {
    if 48 <= c as u32 <= 57 {
        Some(c as u32 - 48)
    } else {
        None
    }
}

/// The number that a status token spells: the token is two decimal digits.
pub open spec fn status_code(token: Seq<char>) -> Option<int> {
    if token.len() == 2 && digit(token[0]) is Some && digit(token[1]) is Some {
        Some(10 * digit(token[0]).unwrap() + digit(token[1]).unwrap())
    } else {
        None
    }
}

/// The header of a success, given what the media type parses to.
pub open spec fn success_header(media: Option<MediaTypeView>) -> Result<HeaderView, FetchError> {
    match media {
        Some(m) => Ok(HeaderView::Success(m)),
        None => Err(FetchError::UnsupportedMediaType),
    }
}

/// The header of a redirect, given what the target parses to.
pub open spec fn redirect_header(target: Result<ResourceView, UrlError>) -> Result<
    HeaderView,
    FetchError,
> {
    match target {
        Ok(r) => Ok(HeaderView::Redirect(r)),
        Err(_) => Err(FetchError::InvalidRedirectTarget),
    }
}

/// The header with a given class and meta text.
pub open spec fn header_of(class: StatusClass, meta: Seq<char>) -> Result<HeaderView, FetchError> {
    match class {
        StatusClass::Input => Ok(HeaderView::Input(meta)),
        StatusClass::Success => success_header(parsed_media_type(meta)),
        StatusClass::Redirect => redirect_header(parsed_url(meta)),
        StatusClass::TempFail => Ok(HeaderView::TempFail(meta)),
        StatusClass::PermFail => Ok(HeaderView::PermFail(meta)),
        StatusClass::Auth => Ok(HeaderView::Auth(meta)),
    }
}

/// The header that a status line stands for. The line is split at its first
/// space into the status token and the meta text.
pub open spec fn parsed_header(line: Seq<char>) -> Result<HeaderView, FetchError> {
    match split_once(line, ' ') {
        None => Err(FetchError::MalformedStatusLine),
        Some((token, meta)) => match status_code(token) {
            None => Err(FetchError::UnknownStatusCode),
            Some(code) => match class_of(code) {
                None => Err(FetchError::UnknownStatusCode),
                Some(class) => header_of(class, meta),
            },
        },
    }
}

/// The content of the outcome of reading a header.
pub open spec fn header_outcome(r: Result<GeminiHeader, FetchError>) -> Result<
    HeaderView,
    FetchError,
> {
    match r {
        Ok(h) => Ok(h@),
        Err(e) => Err(e),
    }
}

/// Parses `input` with the `mime` crate's `FromStr` for `Mime`, and copies
/// out the media type as `Display` writes it and its `essence_str`. The
/// contract claims that the outcome is a function of `input` alone.
#[verifier::external_body]
fn mime_parse(input: &str) -> (r: Result<MediaType, mime::FromStrError>)
    ensures
        match r {
            Ok(m) => parsed_media_type(input@) == Some(m@),
            Err(_) => parsed_media_type(input@) is None,
        },
{
    input.parse::<Mime>().map(
        |m| MediaType { text: m.to_string(), essence: m.essence_str().to_string() },
    )
}

/// The class of a status code.
pub fn classify(code: u64) -> (class: Option<StatusClass>)
    ensures
        class == class_of(code as int),
{
    if 10 <= code && code <= 19 {
        Some(StatusClass::Input)
    } else if 20 <= code && code <= 29 {
        Some(StatusClass::Success)
    } else if 30 <= code && code <= 39 {
        Some(StatusClass::Redirect)
    } else if 40 <= code && code <= 49 {
        Some(StatusClass::TempFail)
    } else if 50 <= code && code <= 59 {
        Some(StatusClass::PermFail)
    } else if 60 <= code && code <= 69 {
        Some(StatusClass::Auth)
    } else {
        None
    }
}

/// The number that a status token spells, where it is two decimal digits.
pub fn read_status(token: &Vec<char>) -> (code: Option<u64>)
    ensures
        match code {
            Some(n) => status_code(token@) == Some(n as int),
            None => status_code(token@) is None,
        },
{
    if token.len() != 2 {
        return None;
    }
    let high: u32 = token[0] as u32;
    let low: u32 = token[1] as u32;
    if 48 <= high && high <= 57 && 48 <= low && low <= 57 {
        Some((10 * (high - 48) + (low - 48)) as u64)
    } else {
        None
    }
}

impl Clone for MediaType {
    fn clone(&self) -> (m: Self)
        ensures
            m@ == self@,
    {
        MediaType { text: self.text.clone(), essence: self.essence.clone() }
    }
}

impl MediaType {
    /// Parses a media type.
    pub fn parse(input: &str) -> (m: Option<MediaType>)
        ensures
            match m {
                Some(media) => parsed_media_type(input@) == Some(media@),
                None => parsed_media_type(input@) is None,
            },
    {
        match mime_parse(input) {
            Ok(media) => Some(media),
            Err(_) => None,
        }
    }

    /// The media type in full, parameters included.
    pub fn as_str(&self) -> (s: &str)
        ensures
            s@ == self@.text,
    {
        self.text.as_str()
    }

    /// Type and subtype, without parameters.
    pub fn essence_str(&self) -> (s: &str)
        ensures
            s@ == self@.essence,
    {
        self.essence.as_str()
    }

    /// Whether this is the protocol's native text format.
    pub fn is_gemini_text(&self) -> (b: bool)
        ensures
            b == (self@.essence == gemini_text()),
    {
        let c = to_chars(self.essence.as_str());
        let b = c.len() == 11 && c[0] == 't' && c[1] == 'e' && c[2] == 'x' && c[3] == 't' && c[4]
            == '/' && c[5] == 'g' && c[6] == 'e' && c[7] == 'm' && c[8] == 'i' && c[9] == 'n'
            && c[10] == 'i';
        assert(b ==> c@ =~= gemini_text());
        b
    }
}

impl Clone for GeminiHeader {
    fn clone(&self) -> (h: Self)
        ensures
            h@ == self@,
    {
        match self {
            GeminiHeader::Input(s) => GeminiHeader::Input(s.clone()),
            GeminiHeader::Success(m) => GeminiHeader::Success(m.clone()),
            GeminiHeader::Redirect(r) => GeminiHeader::Redirect(r.clone()),
            GeminiHeader::TempFail(s) => GeminiHeader::TempFail(s.clone()),
            GeminiHeader::PermFail(s) => GeminiHeader::PermFail(s.clone()),
            GeminiHeader::Auth(s) => GeminiHeader::Auth(s.clone()),
        }
    }
}

impl GeminiHeader {
    /// The header of a success whose media type parsed to `media`.
    pub fn success(media: Option<MediaType>) -> (r: Result<GeminiHeader, FetchError>)
        ensures
            header_outcome(r) == success_header(
                match media {
                    Some(m) => Some(m@),
                    None => None,
                },
            ),
    {
        match media {
            Some(m) => Ok(GeminiHeader::Success(m)),
            None => Err(FetchError::UnsupportedMediaType),
        }
    }

    /// The header of a redirect whose target parsed to `target`.
    pub fn redirect(target: Result<Resource, UrlError>) -> (r: Result<GeminiHeader, FetchError>)
        ensures
            header_outcome(r) == redirect_header(outcome_view(target)),
    {
        match target {
            Ok(resource) => Ok(GeminiHeader::Redirect(resource)),
            Err(_) => Err(FetchError::InvalidRedirectTarget),
        }
    }

    /// Reads a status line, without its line terminator.
    ///
    /// The line is `<code> <meta>`: two decimal digits, one space, and the
    /// meta text, which is all that follows the first space.
    pub fn from_str(s: &str) -> (r: Result<GeminiHeader, FetchError>)
        ensures
            header_outcome(r) == parsed_header(s@),
    {
        let line = to_chars(s);
        let p = find_from(&line, 0, ' ');
        assert(line@.skip(0) == line@);
        if p >= line.len() {
            return Err(FetchError::MalformedStatusLine);
        }
        let token = slice(&line, 0, p);
        let rest = to_string(&slice(&line, p + 1, line.len()));
        let code = match read_status(&token) {
            Some(code) => code,
            None => {
                return Err(FetchError::UnknownStatusCode);
            },
        };
        match classify(code) {
            None => Err(FetchError::UnknownStatusCode),
            Some(StatusClass::Input) => Ok(GeminiHeader::Input(rest)),
            Some(StatusClass::Success) => GeminiHeader::success(MediaType::parse(rest.as_str())),
            Some(StatusClass::Redirect) => GeminiHeader::redirect(Resource::parse(rest.as_str())),
            Some(StatusClass::TempFail) => Ok(GeminiHeader::TempFail(rest)),
            Some(StatusClass::PermFail) => Ok(GeminiHeader::PermFail(rest)),
            Some(StatusClass::Auth) => Ok(GeminiHeader::Auth(rest)),
        }
    }

    /// The class of the header.
    pub fn class(&self) -> (class: StatusClass)
        ensures
            class == class_of_header(self@),
    {
        match self {
            GeminiHeader::Input(_) => StatusClass::Input,
            GeminiHeader::Success(_) => StatusClass::Success,
            GeminiHeader::Redirect(_) => StatusClass::Redirect,
            GeminiHeader::TempFail(_) => StatusClass::TempFail,
            GeminiHeader::PermFail(_) => StatusClass::PermFail,
            GeminiHeader::Auth(_) => StatusClass::Auth,
        }
    }
}

/// The class that a header belongs to.
pub open spec fn class_of_header(h: HeaderView) -> StatusClass {
    match h {
        HeaderView::Input(_) => StatusClass::Input,
        HeaderView::Success(_) => StatusClass::Success,
        HeaderView::Redirect(_) => StatusClass::Redirect,
        HeaderView::TempFail(_) => StatusClass::TempFail,
        HeaderView::PermFail(_) => StatusClass::PermFail,
        HeaderView::Auth(_) => StatusClass::Auth,
    }
}

} // verus!
