//! References to component artifacts: a local path, a URL, or an OCI image
//! reference, told apart by the text alone.

use crate::text;
use vstd::prelude::*;
use vstd::string::*;

verus! {

/// What a reference is, as plain data.
pub enum Reference {
    /// A path on the local disk.
    Local(Seq<char>),
    /// A URL to fetch.
    Remote(Seq<char>),
    /// An image in an OCI registry.
    Oci(Seq<char>),
}

/// A component artifact on the local disk, named by its path.
#[derive(Debug)]
pub struct LocalFileSource(String);

/// A component artifact behind a URL.
#[derive(Debug)]
pub struct RemoteFileSource(String);

/// A component artifact in an OCI registry, named by its image reference.
#[derive(Debug)]
pub struct OciFileSource(String);

/// Where the bytes of a component come from.
#[derive(Debug)]
pub enum FileSource {
    Local(LocalFileSource),
    Remote(RemoteFileSource),
    Oci(OciFileSource),
}

/// Why a reference was not accepted or its bytes were not had.
#[derive(Debug)]
pub enum Error {
    /// The text is no reference of any known form; the message names it.
    Parse(String),
    /// The path lies outside the directory that components may come from.
    ForbiddenPath(String),
    /// The URL's scheme is not `https`.
    ForbiddenScheme(String),
    /// Reading the file failed; the text is the kind of the failure.
    Io(String),
    /// The transfer failed before a response was had.
    Network(String),
    /// The server answered with this status, which is no success.
    Http(u16),
    /// The text is no OCI image reference.
    OciParse(String),
    /// The registry did not hand out the image.
    OciPull(String),
}

/// The pattern of an OCI image reference: a name of two or more segments,
/// then an optional tag and an optional `sha256` digest.
pub const OCI_IMAGE_PATTERN: &'static str =
    r"^[\w\.-]+(?:/[\w\.-]+)+(?::[\w\.-]+)?(?:@sha256:[a-fA-F0-9]+)?$";

/// What `Url::parse` of the `url` crate makes of a text: the scheme and the
/// path of the URL, or nothing where the text is no absolute URL.
pub uninterp spec fn url_parts(text: Seq<char>) -> Option<(Seq<char>, Seq<char>)>;

/// Whether a regular expression of the `regex` crate finds a match in a text;
/// nothing where the pattern does not compile.
pub uninterp spec fn regex_search(pattern: Seq<char>, text: Seq<char>) -> Option<bool>;

/// `Url::parse` of the `url` crate, with `Url::scheme` and `Url::path` of the
/// result: the scheme and the path of the URL that the text is, or `None`
/// where it is none.
#[verifier::external_body]
fn parse_url(text: &str) -> (r: Option<(String, String)>)
    ensures
        url_parts(text@) == parts_view(r),
{
    match url::Url::parse(text) {
        Ok(url) => Some((url.scheme().to_string(), url.path().to_string())),
        Err(_) => None,
    }
}

/// `Regex::new` and `Regex::is_match` of the `regex` crate: whether the
/// pattern matches somewhere in the text, or `None` where the pattern does not
/// compile.
#[verifier::external_body]
fn search(pattern: &str, text: &str) -> (r: Option<bool>)
    ensures
        r == regex_search(pattern@, text@),
{
    match regex::Regex::new(pattern) {
        Ok(regex) => Some(regex.is_match(text)),
        Err(_) => None,
    }
}

/// Whether the scheme is one of those that make a reference remote.
pub open spec fn is_web_scheme(scheme: Seq<char>) -> bool {
    scheme == "https"@ || scheme == "http"@
}

/// Whether the text is a URL whose scheme makes a reference remote.
pub open spec fn is_web_url(url: Option<(Seq<char>, Seq<char>)>) -> bool {
    match url {
        Some((scheme, _)) => is_web_scheme(scheme),
        None => false,
    }
}

/// Whether the text is a URL with scheme `oci`.
pub open spec fn is_image_url(url: Option<(Seq<char>, Seq<char>)>) -> bool {
    match url {
        Some((scheme, _)) => scheme == "oci"@,
        None => false,
    }
}

/// The path of the URL that the text is; empty where it is none.
pub open spec fn path_of(url: Option<(Seq<char>, Seq<char>)>) -> Seq<char> {
    match url {
        Some((_, path)) => path,
        None => Seq::empty(),
    }
}

/// The parts of a URL by their views.
pub open spec fn parts_view(url: Option<(String, String)>) -> Option<(Seq<char>, Seq<char>)> {
    match url {
        Some((scheme, path)) => Some((scheme@, path@)),
        None => None,
    }
}

/// Whether the text has the form of a path: it begins with `./`, `../` or `/`.
pub open spec fn is_path_like(text: Seq<char>) -> bool {
    "./"@.is_prefix_of(text) || "../"@.is_prefix_of(text) || "/"@.is_prefix_of(text)
}

/// The classification of a text, given what the URL parser makes of it and
/// whether it matches the pattern of an image reference. The rules are tried
/// in order and the first that applies decides:
/// a URL with scheme `https` or `http` is remote;
/// a URL with scheme `oci` names the image that its path is;
/// a text that begins like a path is local;
/// a text that matches the image pattern names an image;
/// anything else is no reference.
pub open spec fn classify(
    text: Seq<char>,
    url: Option<(Seq<char>, Seq<char>)>,
    image: bool,
) -> Option<Reference> {
    if is_web_url(url) {
        Some(Reference::Remote(text))
    } else if is_image_url(url) {
        Some(Reference::Oci(path_of(url)))
    } else if is_path_like(text) {
        Some(Reference::Local(text))
    } else if image {
        Some(Reference::Oci(text))
    } else {
        None
    }
}

/// The text that a reference is written as.
pub open spec fn written(reference: Reference) -> Seq<char> {
    match reference {
        Reference::Local(path) => path,
        Reference::Remote(url) => url,
        Reference::Oci(image) => image,
    }
}

/// The message of the error for a text that is no reference.
pub open spec fn unrecognized(reference: Seq<char>) -> Seq<char> {
    "Unable to identify reference type: "@ + reference
}

impl View for LocalFileSource {
    type V = Seq<char>;

    closed spec fn view(&self) -> Seq<char> {
        self.0@
    }
}

impl View for RemoteFileSource {
    type V = Seq<char>;

    closed spec fn view(&self) -> Seq<char> {
        self.0@
    }
}

impl View for OciFileSource {
    type V = Seq<char>;

    closed spec fn view(&self) -> Seq<char> {
        self.0@
    }
}

impl View for FileSource {
    type V = Reference;

    open spec fn view(&self) -> Reference {
        match self {
            FileSource::Local(source) => Reference::Local(source@),
            FileSource::Remote(source) => Reference::Remote(source@),
            FileSource::Oci(source) => Reference::Oci(source@),
        }
    }
}

impl LocalFileSource {
    pub fn new(path: String) -> (r: Self)
        ensures
            r@ == path@,
    {
        Self(path)
    }

    pub fn path(&self) -> (r: &String)
        ensures
            r@ == self@,
    {
        &self.0
    }
}

impl Clone for LocalFileSource {
    fn clone(&self) -> (r: Self)
        ensures
            r == *self,
    {
        Self(self.0.clone())
    }
}

impl RemoteFileSource {
    pub fn new(url: String) -> (r: Self)
        ensures
            r@ == url@,
    {
        Self(url)
    }

    pub fn url(&self) -> (r: &str)
        ensures
            r@ == self@,
    {
        self.0.as_str()
    }
}

impl Clone for RemoteFileSource {
    fn clone(&self) -> (r: Self)
        ensures
            r == *self,
    {
        Self(self.0.clone())
    }
}

impl OciFileSource {
    pub fn new(url: String) -> (r: Self)
        ensures
            r@ == url@,
    {
        Self(url)
    }

    /// The image reference.
    pub fn image(&self) -> (r: &str)
        ensures
            r@ == self@,
    {
        self.0.as_str()
    }
}

impl Clone for OciFileSource {
    fn clone(&self) -> (r: Self)
        ensures
            r == *self,
    {
        Self(self.0.clone())
    }
}

impl Clone for FileSource {
    fn clone(&self) -> (r: Self)
        ensures
            r == *self,
    {
        match self {
            FileSource::Local(source) => FileSource::Local(source.clone()),
            FileSource::Remote(source) => FileSource::Remote(source.clone()),
            FileSource::Oci(source) => FileSource::Oci(source.clone()),
        }
    }
}

impl FileSource {
    pub fn local(path: String) -> (r: Self)
        ensures
            r@ == Reference::Local(path@),
    {
        Self::Local(LocalFileSource::new(path))
    }

    pub fn remote(url: String) -> (r: Self)
        ensures
            r@ == Reference::Remote(url@),
    {
        Self::Remote(RemoteFileSource::new(url))
    }

    pub fn oci(url: String) -> (r: Self)
        ensures
            r@ == Reference::Oci(url@),
    {
        Self::Oci(OciFileSource::new(url))
    }

    /// The scheme of the URL that the text is, if it is one.
    pub fn scheme(reference: &str) -> (r: Option<String>)
        ensures
            match url_parts(reference@) {
                Some((scheme, _)) => r is Some && r->0@ == scheme,
                None => r is None,
            },
    {
        match parse_url(reference) {
            Some((scheme, _)) => Some(scheme),
            None => None,
        }
    }

    /// Whether the text has the form of an OCI image reference.
    pub fn is_oci_image_ref(reference: &str) -> (r: bool)
        ensures
            r == (regex_search(OCI_IMAGE_PATTERN@, reference@) == Some(true)),
    {
        match search(OCI_IMAGE_PATTERN, reference) {
            Some(found) => found,
            None => false,
        }
    }

    /// Whether the text begins like a path.
    pub fn is_path_like(reference: &str) -> (r: bool)
        ensures
            r == is_path_like(reference@),
    {
        text::starts_with(reference, "./") || text::starts_with(reference, "../")
            || text::starts_with(reference, "/")
    }

    /// Classifies a trimmed text, given the scheme and path that the URL
    /// parser found in it, if any, and whether it matches the image pattern.
    pub fn classify(reference: &str, url: Option<(String, String)>, image: bool) -> (r: Result<
        Self,
        Error,
    >)
        ensures
            match classify(reference@, parts_view(url), image) {
                Some(kind) => r is Ok && r->Ok_0@ == kind,
                None => r is Err && r->Err_0 is Parse && r->Err_0->Parse_0@ == unrecognized(
                    reference@,
                ),
            },
    {
        if let Some((scheme, path)) = url {
            if text::same(scheme.as_str(), "https") || text::same(scheme.as_str(), "http") {
                return Ok(Self::remote(String::from_str(reference)));
            }
            if text::same(scheme.as_str(), "oci") {
                return Ok(Self::oci(path));
            }
        }
        if Self::is_path_like(reference) {
            return Ok(Self::local(String::from_str(reference)));
        }
        if image {
            return Ok(Self::oci(String::from_str(reference)));
        }
        Err(
            Error::Parse(String::from_str("Unable to identify reference type: ").concat(reference)),
        )
    }

    /// Reads a reference: the text is trimmed of white space and classified
    /// by the first rule that applies to it.
    pub fn parse(reference: &str) -> (r: Result<Self, Error>)
        ensures
            match classify(
                text::trimmed(reference@),
                url_parts(text::trimmed(reference@)),
                regex_search(OCI_IMAGE_PATTERN@, text::trimmed(reference@)) == Some(true),
            ) {
                Some(kind) => r is Ok && r->Ok_0@ == kind,
                None => r is Err && r->Err_0 is Parse && r->Err_0->Parse_0@ == unrecognized(
                    text::trimmed(reference@),
                ),
            },
    {
        let trimmed = text::trim(reference);
        let url = parse_url(trimmed);
        let image = Self::is_oci_image_ref(trimmed);
        Self::classify(trimmed, url, image)
    }

    /// The text that the reference is written as: the path, the URL or the
    /// image reference.
    pub fn to_string(&self) -> (r: String)
        ensures
            r@ == written(self@),
    {
        match self {
            FileSource::Local(source) => source.path().clone(),
            FileSource::Remote(source) => String::from_str(source.url()),
            FileSource::Oci(source) => String::from_str(source.image()),
        }
    }
}

/// A text is a reference exactly when one of the four rules applies to it,
/// and a reference is of exactly one kind.
pub proof fn lemma_classification_is_total_and_exclusive(
    text: Seq<char>,
    url: Option<(Seq<char>, Seq<char>)>,
    image: bool,
)
    ensures
        classify(text, url, image) is Some <==> (is_web_url(url) || is_image_url(url)
            || is_path_like(text) || image),
        classify(text, url, image) matches Some(kind) ==> ((kind is Local && !(kind is Remote)
            && !(kind is Oci)) || (!(kind is Local) && kind is Remote && !(kind is Oci)) || (!(kind
            is Local) && !(kind is Remote) && kind is Oci)),
{
}

/// A reference is written as the text it was read from, unless it came from a
/// URL with scheme `oci`, which is written as the URL's path.
pub proof fn lemma_written_as_read(
    text: Seq<char>,
    url: Option<(Seq<char>, Seq<char>)>,
    image: bool,
)
    requires
        classify(text, url, image) is Some,
    ensures
        written(classify(text, url, image)->0) == if !is_web_url(url) && is_image_url(url) {
            path_of(url)
        } else {
            text
        },
{
}

} // verus!
