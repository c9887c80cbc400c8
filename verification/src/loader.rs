//! The loader's policy: what may be fetched, from where, and what becomes of
//! what came back. The fetching itself is the driver's work.

use crate::file_source::url_parts;
use crate::file_source::Error;
use crate::file_source::FileSource;
use crate::file_source::Reference;
use crate::text;
use vstd::prelude::*;
use vstd::string::*;

verus! {

/// Whether `Path::starts_with` of std finds the path `root` to lead the path
/// `path`, component by component.
pub uninterp spec fn path_within(path: Seq<char>, root: Seq<char>) -> bool;

/// `Path::starts_with` of std, on paths made with `Path::new`: whether `root`
/// is a prefix of `path` by whole components.
#[verifier::external_body]
fn starts_with_path(path: &str, root: &str) -> (r: bool)
    ensures
        r == path_within(path@, root@),
{
    std::path::Path::new(path).starts_with(root)
}

/// The directory that local components come from when none is configured
/// and the working directory has none.
pub const DEFAULT_ROOT: &'static str = "./wasm";

/// The media type that is asked of a registry.
pub const WASM_MEDIA_TYPE: &'static str = "application/wasm";

/// What the driver is to do to get the bytes.
#[derive(Debug)]
pub enum Fetch {
    /// Read the file at this path, once `admit_local` has admitted its
    /// canonical form.
    Read(String),
    /// Get this URL.
    Get(String),
    /// Pull this image without credentials, asking for this media type, and
    /// take its first layer.
    Pull { image: String, media_type: String },
}

/// The fetch as plain data.
pub enum FetchModel {
    Read(Seq<char>),
    Get(Seq<char>),
    Pull { image: Seq<char>, media_type: Seq<char> },
}

impl View for Fetch {
    type V = FetchModel;

    open spec fn view(&self) -> FetchModel {
        match self {
            Fetch::Read(path) => FetchModel::Read(path@),
            Fetch::Get(url) => FetchModel::Get(url@),
            Fetch::Pull { image, media_type } => FetchModel::Pull {
                image: image@,
                media_type: media_type@,
            },
        }
    }
}

/// Whether the text is a URL with scheme `https`.
pub open spec fn is_https(url: Seq<char>) -> bool {
    match url_parts(url) {
        Some((scheme, _)) => scheme == "https"@,
        None => false,
    }
}

/// Whether a status is one of success.
pub open spec fn is_success(status: u16) -> bool {
    200 <= status < 300
}

/// The directory that local components may come from: the configured one if
/// there is one, else the one of the working directory if there is one, else
/// the default.
pub fn allowed_root(configured: Option<String>, working: Option<String>) -> (r: String)
    ensures
        r@ == match (configured, working) {
            (Some(root), _) => root@,
            (None, Some(root)) => root@,
            (None, None) => DEFAULT_ROOT@,
        },
{
    match configured {
        Some(root) => root,
        None => match working {
            Some(root) => root,
            None => String::from_str(DEFAULT_ROOT),
        },
    }
}

/// Admits a local path, in its canonical form, if it lies within the root;
/// any other path is forbidden.
pub fn admit_local(canonical: &str, root: &str) -> (r: Result<(), Error>)
    ensures
        path_within(canonical@, root@) ==> r is Ok,
        !path_within(canonical@, root@) ==> (r matches Err(Error::ForbiddenPath(path)) && path@
            == canonical@),
{
    if starts_with_path(canonical, root) {
        Ok(())
    } else {
        Err(Error::ForbiddenPath(String::from_str(canonical)))
    }
}

/// Admits a URL if its scheme is `https`; any other text is forbidden.
pub fn admit_remote(url: &str) -> (r: Result<(), Error>)
    ensures
        is_https(url@) ==> r is Ok,
        !is_https(url@) ==> (r matches Err(Error::ForbiddenScheme(text)) && text@ == url@),
{
    let allowed = match FileSource::scheme(url) {
        Some(scheme) => text::same(scheme.as_str(), "https"),
        None => false,
    };
    if allowed {
        Ok(())
    } else {
        Err(Error::ForbiddenScheme(String::from_str(url)))
    }
}

/// What is to be done to get the bytes of a source. A remote source that is
/// not reached over `https` is forbidden; nothing is fetched for it.
pub fn plan(source: &FileSource) -> (r: Result<Fetch, Error>)
    ensures
        match source@ {
            Reference::Local(path) => r is Ok && r->Ok_0@ == FetchModel::Read(path),
            Reference::Remote(url) => if is_https(url) {
                r is Ok && r->Ok_0@ == FetchModel::Get(url)
            } else {
                r matches Err(Error::ForbiddenScheme(text)) && text@ == url
            },
            Reference::Oci(image) => r is Ok && r->Ok_0@ == (FetchModel::Pull {
                image,
                media_type: WASM_MEDIA_TYPE@,
            }),
        },
{
    match source {
        FileSource::Local(local) => Ok(Fetch::Read(local.path().clone())),
        FileSource::Remote(remote) => match admit_remote(remote.url()) {
            Ok(()) => Ok(Fetch::Get(String::from_str(remote.url()))),
            Err(error) => Err(error),
        },
        FileSource::Oci(oci) => Ok(
            Fetch::Pull {
                image: String::from_str(oci.image()),
                media_type: String::from_str(WASM_MEDIA_TYPE),
            },
        ),
    }
}

/// What becomes of the reading of an admitted file: the bytes that were
/// read, as they are and however few, so that an empty file gives no bytes
/// and no error; where the reading failed, its failure as the error.
pub fn was_read(outcome: Result<Vec<u8>, String>) -> (r: Result<Vec<u8>, Error>)
    ensures
        match outcome {
            Ok(bytes) => r == Ok::<Vec<u8>, Error>(bytes),
            Err(failure) => r == Err::<Vec<u8>, Error>(Error::Io(failure)),
        },
{
    match outcome {
        Ok(bytes) => Ok(bytes),
        Err(failure) => Err(Error::Io(failure)),
    }
}

/// What becomes of a response: its body where the status is one of success,
/// else the status as the error.
pub fn received(status: u16, body: Vec<u8>) -> (r: Result<Vec<u8>, Error>)
    ensures
        is_success(status) ==> r == Ok::<Vec<u8>, Error>(body),
        !is_success(status) ==> r == Err::<Vec<u8>, Error>(Error::Http(status)),
{
    if 200 <= status && status < 300 {
        Ok(body)
    } else {
        Err(Error::Http(status))
    }
}

/// The bytes of an image: those of its first layer. An image without layers
/// was not pulled to any use.
pub fn first_layer(layers: Vec<Vec<u8>>) -> (r: Result<Vec<u8>, Error>)
    ensures
        layers@.len() > 0 ==> r is Ok && r->Ok_0@ == layers@[0]@,
        layers@.len() == 0 ==> r is Err && r->Err_0 is OciPull,
{
    let mut layers = layers;
    if layers.len() > 0 {
        Ok(layers.swap_remove(0))
    } else {
        Err(Error::OciPull(String::from_str("the image has no layer")))
    }
}

} // verus!
