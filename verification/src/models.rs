//! The records of the network lab: disk images, virtual nodes, API
//! responses and request bodies, and the check that keeps image paths inside
//! their directory.
use vstd::prelude::*;
use vstd::string::*;

use crate::guacamole::GuacamoleConnection;
use crate::text::owned;

verus! {

/// Declares `std::io::Error`, which `ImagePathError` and `QemuError` carry;
/// nothing is claimed of its contents.
#[verifier::external_type_specification]
#[verifier::external_body]
pub struct ExIoError(std::io::Error);

/// Why an image or overlay path could not be used.
#[derive(Debug)]
pub enum ImagePathError {
    /// The path could not be resolved on the file system.
    InvalidPath(std::io::Error),
    /// The resolved path lies outside its base directory; the message names
    /// the relative path.
    PathTraversal(String),
}

/// A disk image: a base image, or an overlay on its parent image.
#[derive(Debug, Clone)]
pub struct Image {
    pub id: u128,
    pub name: String,
    /// Relative path to the image file within the image directory.
    pub path: String,
    /// The parent image if this is an overlay, `None` for a base image.
    pub parent_id: Option<u128>,
    pub description: Option<String>,
}

impl Image {
    /// Whether this is a base image (it has no parent).
    pub fn is_base_image(&self) -> (b: bool)
        ensures
            b == (self.parent_id is None),
    {
        self.parent_id.is_none()
    }
}

/// Whether a node's virtual machine runs.
#[derive(Clone, Copy, Debug, PartialEq, Eq, Structural)]
pub enum NodeStatus {
    Running,
    Stopped,
}

/// A virtual machine instance, based on an image, with its own overlay.
#[derive(Debug, Clone)]
pub struct Node {
    pub id: u128,
    pub name: String,
    pub status: NodeStatus,
    /// The image this node is based on.
    pub image_id: u128,
    /// Path to the node's own overlay, relative to the overlay directory.
    pub instance_overlay_path: String,
    pub vnc_port: Option<u16>,
    pub guacamole_connection_id: Option<String>,
}

/// The views of a path's components, each as the raw bytes of its name.
pub open spec fn components_view(c: Seq<Vec<u8>>) -> Seq<Seq<u8>> {
    c.map_values(|s: Vec<u8>| s@)
}

/// Whether two byte strings are equal.
fn same_bytes(a: &Vec<u8>, b: &Vec<u8>) -> (r: bool)
    ensures
        r == (a@ == b@),
{
    if a.len() != b.len() {
        return false;
    }
    let mut i: usize = 0;
    while i < a.len()
        invariant
            i <= a@.len(),
            a@.len() == b@.len(),
            forall|k: int| 0 <= k < i ==> a@[k] == b@[k],
        decreases a@.len() - i,
    {
        if a[i] != b[i] {
            return false;
        }
        i = i + 1;
    }
    assert(a@ =~= b@);
    true
}

/// Which path is resolved on the file system before the containment check.
#[derive(Clone, Copy, Debug, PartialEq, Eq, Structural)]
pub enum PathToCheck {
    /// The joined path exists: it is resolved itself.
    FullPath,
    /// The joined path does not exist yet: its parent directory is resolved
    /// and its file name appended.
    ParentAndFileName,
}

/// Why a path cannot be resolved at all.
#[derive(Clone, Copy, Debug, PartialEq, Eq, Structural)]
pub enum UnresolvablePath {
    NoParentDirectory,
    NoFileName,
}

impl UnresolvablePath {
    /// The message of the invalid-input error reported for this case.
    pub fn message(&self) -> (m: &'static str)
        ensures
            m@ == match self {
                UnresolvablePath::NoParentDirectory => "Path has no parent directory"@,
                UnresolvablePath::NoFileName => "Path has no filename"@,
            },
    {
        match self {
            UnresolvablePath::NoParentDirectory => "Path has no parent directory",
            UnresolvablePath::NoFileName => "Path has no filename",
        }
    }
}

/// Decides what to resolve for a path inside a base directory: the path
/// itself when it exists, otherwise its parent directory, which it must have.
pub fn path_to_check(full_path_exists: bool, has_parent: bool) -> (r: Result<
    PathToCheck,
    UnresolvablePath,
>)
    ensures
        full_path_exists ==> r == Ok::<PathToCheck, UnresolvablePath>(PathToCheck::FullPath),
        !full_path_exists && has_parent ==> r == Ok::<PathToCheck, UnresolvablePath>(
            PathToCheck::ParentAndFileName,
        ),
        !full_path_exists && !has_parent ==> r == Err::<PathToCheck, UnresolvablePath>(
            UnresolvablePath::NoParentDirectory,
        ),
{
    if full_path_exists {
        Ok(PathToCheck::FullPath)
    } else if has_parent {
        Ok(PathToCheck::ParentAndFileName)
    } else {
        Err(UnresolvablePath::NoParentDirectory)
    }
}

/// The components of a path that does not exist yet: those of its resolved
/// parent directory followed by its file name, which it must have.
pub fn join_file_name(canonical_parent: Vec<Vec<u8>>, file_name: Option<Vec<u8>>) -> (r: Result<
    Vec<Vec<u8>>,
    UnresolvablePath,
>)
    ensures
        match file_name {
            Some(f) => r matches Ok(p) && p@ == canonical_parent@.push(f),
            None => r == Err::<Vec<Vec<u8>>, UnresolvablePath>(UnresolvablePath::NoFileName),
        },
{
    match file_name {
        Some(f) => {
            let mut p = canonical_parent;
            p.push(f);
            Ok(p)
        },
        None => Err(UnresolvablePath::NoFileName),
    }
}

/// The message of a `PathTraversal` error for `relative_path`.
pub open spec fn traversal_message(relative_path: Seq<char>) -> Seq<char> {
    relative_path + " is outside the allowed directory"@
}

/// Accepts `resolved`, the canonical form of `base_dir` joined with
/// `relative_path`, only if it lies within the canonical `base_dir`: both are
/// given as their sequences of components, and `resolved` must start with all
/// components of `base_dir` (`Path::starts_with`), compared byte for byte.
pub fn validate_and_resolve_path(
    base_dir: &Vec<Vec<u8>>,
    resolved: Vec<Vec<u8>>,
    relative_path: &str,
) -> (r: Result<Vec<Vec<u8>>, ImagePathError>)
    ensures
        components_view(base_dir@).is_prefix_of(components_view(resolved@)) ==> (r matches Ok(p)
            && p@ == resolved@),
        !components_view(base_dir@).is_prefix_of(components_view(resolved@)) ==> (r matches Err(
            ImagePathError::PathTraversal(msg),
        ) && msg@ == traversal_message(relative_path@)),
{
    let n = base_dir.len();
    let mut within = n <= resolved.len();
    let mut i: usize = 0;
    while within && i < n
        invariant
            i <= n,
            n == base_dir@.len(),
            within ==> n <= resolved@.len(),
            within ==> forall|k: int| 0 <= k < i ==> base_dir@[k]@ == resolved@[k]@,
            !within ==> !components_view(base_dir@).is_prefix_of(components_view(resolved@)),
        decreases n - i,
    {
        if !same_bytes(&base_dir[i], &resolved[i]) {
            within = false;
            assert(components_view(base_dir@)[i as int] != components_view(resolved@)[i as int]);
        }
        i = i + 1;
    }
    if within {
        assert(components_view(base_dir@) =~= components_view(resolved@).subrange(0, n as int));
        Ok(resolved)
    } else {
        let mut msg = owned(relative_path);
        msg.append(" is outside the allowed directory");
        Err(ImagePathError::PathTraversal(msg))
    }
}

/// The body of every API answer.
#[derive(Debug)]
pub struct ApiResponse<T> {
    pub success: bool,
    pub data: Option<T>,
    pub error: Option<String>,
}

impl<T> ApiResponse<T> {
    /// A successful answer carrying `data`.
    pub fn ok(data: T) -> (r: Self)
        ensures
            r.success,
            r.data == Some(data),
            r.error is None,
    {
        ApiResponse { success: true, data: Some(data), error: None }
    }

    /// A failed answer carrying `message`.
    pub fn error(message: String) -> (r: ApiResponse<()>)
        ensures
            !r.success,
            r.data is None,
            r.error == Some(message),
    {
        ApiResponse { success: false, data: None, error: Some(message) }
    }
}

/// The answer of the routes that are not implemented yet.
pub fn not_implemented() -> (r: ApiResponse<()>)
    ensures
        !r.success,
        r.data is None,
        r.error matches Some(m) && m@ == "Not yet implemented"@,
{
    ApiResponse::<()>::error(owned("Not yet implemented"))
}

#[derive(Debug)]
pub struct CreateImageRequest {
    pub name: String,
    pub path: String,
    pub parent_id: Option<u128>,
    pub description: Option<String>,
}

#[derive(Debug)]
pub struct CreateNodeRequest {
    pub name: String,
    /// The image to base the node on.
    pub image_id: u128,
}

#[derive(Debug)]
pub struct CreateVncConnectionRequest {
    pub connection_name: Option<String>,
    pub vnc_host: String,
    pub vnc_port: u16,
}

impl CreateVncConnectionRequest {
    /// The requested connection name, or `vnc-connection` when none is given.
    pub fn connection_name_or_default(&self) -> (r: &str)
        ensures
            r@ == match self.connection_name {
                Some(n) => n@,
                None => "vnc-connection"@,
            },
    {
        match &self.connection_name {
            Some(n) => n.as_str(),
            None => "vnc-connection",
        }
    }
}

#[derive(Debug)]
pub struct CreateVncConnectionResponse {
    pub connection_name: String,
    pub connection_id: String,
    pub client_url: String,
    pub websocket_url: String,
    pub tunnel_url: String,
}

impl CreateVncConnectionResponse {
    /// The part of a registered connection that the API returns.
    pub fn from_connection(c: GuacamoleConnection) -> (r: Self)
        ensures
            r.connection_name == c.connection_name,
            r.connection_id == c.connection_id,
            r.client_url == c.client_url,
            r.websocket_url == c.websocket_url,
            r.tunnel_url == c.tunnel_url,
    {
        CreateVncConnectionResponse {
            connection_name: c.connection_name,
            connection_id: c.connection_id,
            client_url: c.client_url,
            websocket_url: c.websocket_url,
            tunnel_url: c.tunnel_url,
        }
    }
}

/// The failed answer when a VNC connection could not be registered, with the
/// reason `detail`.
pub fn vnc_connection_failure(detail: &str) -> (r: ApiResponse<()>)
    ensures
        !r.success,
        r.data is None,
        r.error matches Some(m) && m@ == "Failed to create VNC connection: "@ + detail@,
{
    let mut m = owned("Failed to create VNC connection: ");
    m.append(detail);
    ApiResponse::<()>::error(m)
}

#[derive(Debug)]
pub struct ImageWithAncestors {
    pub image: Image,
    /// Ancestors from the immediate parent to the base image.
    pub ancestors: Vec<Image>,
}

#[derive(Debug)]
pub struct NodeWithImage {
    pub node: Node,
    /// The node's image with its ancestry.
    pub image: ImageWithAncestors,
}

} // verus!
