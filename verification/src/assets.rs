//! Static assets: which request may be served, and as what.
//!
//! The program around this library resolves a requested path on the file
//! system (following `..` and links) and reads the file. What lies between
//! the two is decided here. A path that resolved must lie inside the resolved
//! asset root, and its extension must be one that is served. A path that did
//! not resolve is judged by the request itself: one that climbs above the
//! root is refused as such, whether or not anything stands where it leads.
//!
//! Resolved paths are byte strings, as the file system has them; they need
//! not be text.

use crate::status::STATUS_BAD_REQUEST;
use crate::status::STATUS_NOT_FOUND;
use crate::status::STATUS_OK;
use crate::text::optional_bytes_view;
use crate::text::optional_string_view;
use crate::text::same_bytes;
use vstd::prelude::*;
use vstd::slice::slice_subrange;
use vstd::slice::slice_to_vec;
use vstd::string::StrSliceExecFns;
use vstd::string::StringExecFns;
use vstd::string::StringSliceAdditionalSpecFns;

verus! {

/// The directory under which assets are looked up, as the server names it
/// before it is resolved.
pub const STATIC_ROOT: &'static str = "./static/";

/// What parts the components of a path, as text.
pub const SEPARATOR: &'static str = "/";

/// The one extension that is served.
pub const CSS_EXTENSION: &'static str = "css";

/// The content type of a stylesheet.
pub const CSS_CONTENT_TYPE: &'static str = "text/css";

/// The byte that parts the components of a path: `/`.
pub const PATH_SEPARATOR: u8 = 47;

/// The byte of which the components `.` and `..` are made, and which starts
/// an extension: `.`.
pub const PATH_DOT: u8 = 46;

/// The path at which the asset `asset` of category `subdir` is looked up,
/// before it is resolved.
pub open spec fn candidate_path(subdir: Seq<char>, asset: Seq<char>) -> Seq<char> {
    STATIC_ROOT@ + subdir + SEPARATOR@ + asset
}

/// Builds the path at which a requested asset is looked up. The two parts
/// are taken as the request gives them.
pub fn asset_candidate(subdir: &str, static_asset: &str) -> (path: String)
    ensures
        path@ == candidate_path(subdir@, static_asset@),
{
    let mut path = String::from_str(STATIC_ROOT);
    path.append(subdir);
    path.append(SEPARATOR);
    path.append(static_asset);
    path
}

/// What a walk along a path has read of the component it stands in.
#[derive(Clone, Copy, Debug, PartialEq, Eq, Structural)]
pub enum Seen {
    /// Nothing yet: the component is empty so far.
    Nothing,
    /// One dot and nothing else.
    Dot,
    /// Two dots and nothing else.
    DotDot,
    /// Anything else: the component is a name.
    Name,
}

/// What has been read of a component once `byte` is read as well.
pub open spec fn seen_after(seen: Seen, byte: u8) -> Seen {
    match seen {
        Seen::Nothing => if byte == PATH_DOT {
            Seen::Dot
        } else {
            Seen::Name
        },
        Seen::Dot => if byte == PATH_DOT {
            Seen::DotDot
        } else {
            Seen::Name
        },
        Seen::DotDot => Seen::Name,
        Seen::Name => Seen::Name,
    }
}

/// How far below the root a walk stands once it has left a component, if it
/// stood `depth` below the root in front of it: a name leads one down, `..`
/// leads one up, `.` and an empty component lead nowhere. `None` says that
/// the walk has stepped above the root.
pub open spec fn depth_after(depth: nat, seen: Seen) -> Option<nat> {
    match seen {
        Seen::Nothing => Some(depth),
        Seen::Dot => Some(depth),
        Seen::DotDot => if depth == 0 {
            None
        } else {
            Some((depth - 1) as nat)
        },
        Seen::Name => Some(depth + 1),
    }
}

/// Whether a walk along `text`, component by component, steps above the
/// root at some point. The walk stands `depth` below the root and has read
/// `seen` of the component that `text` goes on with.
pub open spec fn steps_above(text: Seq<u8>, depth: nat, seen: Seen) -> bool
    decreases text.len(),
{
    if text.len() == 0 {
        depth_after(depth, seen) is None
    } else if text[0] == PATH_SEPARATOR {
        match depth_after(depth, seen) {
            None => true,
            Some(below) => steps_above(text.drop_first(), below, Seen::Nothing),
        }
    } else {
        steps_above(text.drop_first(), depth, seen_after(seen, text[0]))
    }
}

/// The path of a request below the asset root: category, separator, asset.
pub open spec fn relative_path(subdir: Seq<u8>, asset: Seq<u8>) -> Seq<u8> {
    subdir + seq![PATH_SEPARATOR] + asset
}

/// Whether the request for `asset` in category `subdir` climbs out of the
/// asset root: walked from the root, its components step above the root at
/// some point.
pub open spec fn climbs_out(subdir: Seq<u8>, asset: Seq<u8>) -> bool {
    steps_above(relative_path(subdir, asset), 0, Seen::Nothing)
}

/// Decides whether a request climbs out of the asset root.
pub fn request_climbs_out(subdir: &str, static_asset: &str) -> (climbs: bool)
    ensures
        climbs == climbs_out(subdir.spec_bytes(), static_asset.spec_bytes()),
{
    let mut text = subdir.as_bytes_vec();
    text.push(PATH_SEPARATOR);
    let tail = static_asset.as_bytes();
    let mut k: usize = 0;
    while k < tail.len()
        invariant
            k <= tail.len(),
            tail@ == static_asset.spec_bytes(),
            text@ == subdir.spec_bytes() + seq![PATH_SEPARATOR] + tail@.take(k as int),
        decreases tail.len() - k,
    {
        text.push(tail[k]);
        k = k + 1;
        assert(text@ =~= subdir.spec_bytes() + seq![PATH_SEPARATOR] + tail@.take(k as int));
    }
    assert(tail@.take(k as int) =~= tail@);
    let mut depth: usize = 0;
    let mut seen = Seen::Nothing;
    let mut i: usize = 0;
    assert(text@.skip(0) =~= text@);
    while i < text.len()
        invariant
            i <= text.len(),
            depth <= i,
            text@ == relative_path(subdir.spec_bytes(), static_asset.spec_bytes()),
            steps_above(text@, 0, Seen::Nothing) == steps_above(
                text@.skip(i as int),
                depth as nat,
                seen,
            ),
        decreases text.len() - i,
    {
        let byte = text[i];
        assert(text@.skip(i as int)[0] == byte);
        assert(text@.skip(i as int).drop_first() =~= text@.skip(i + 1));
        if byte == PATH_SEPARATOR {
            match seen {
                Seen::DotDot => {
                    if depth == 0 {
                        return true;
                    }
                    depth = depth - 1;
                },
                Seen::Name => {
                    depth = depth + 1;
                },
                Seen::Nothing => {},
                Seen::Dot => {},
            }
            seen = Seen::Nothing;
        } else {
            seen = match seen {
                Seen::Nothing => if byte == PATH_DOT {
                    Seen::Dot
                } else {
                    Seen::Name
                },
                Seen::Dot => if byte == PATH_DOT {
                    Seen::DotDot
                } else {
                    Seen::Name
                },
                Seen::DotDot => Seen::Name,
                Seen::Name => Seen::Name,
            };
        }
        i = i + 1;
    }
    match seen {
        Seen::DotDot => depth == 0,
        _ => false,
    }
}

/// Whether a component of `path` starts at `i` that is `.` or `..`.
pub open spec fn is_relative_component_at(path: Seq<u8>, i: int) -> bool {
    &&& 0 <= i < path.len()
    &&& i == 0 || path[i - 1] == PATH_SEPARATOR
    &&& path[i] == PATH_DOT
    &&& {
        ||| i + 1 == path.len()
        ||| path[i + 1] == PATH_SEPARATOR
        ||| path[i + 1] == PATH_DOT && (i + 2 == path.len() || path[i + 2] == PATH_SEPARATOR)
    }
}

/// Whether `path` has the form of a resolved path: it starts at the root of
/// the file system, and none of its components is `.` or `..`.
pub open spec fn is_resolved(path: Seq<u8>) -> bool {
    &&& path.len() > 0
    &&& path[0] == PATH_SEPARATOR
    &&& forall|i: int| 0 <= i < path.len() ==> !is_relative_component_at(path, i)
}

/// Decides whether a path has the form of a resolved path.
pub fn has_resolved_form(path: &[u8]) -> (resolved: bool)
    ensures
        resolved == is_resolved(path@),
{
    let n = path.len();
    if n == 0 || path[0] != PATH_SEPARATOR {
        return false;
    }
    let mut i: usize = 0;
    while i < n
        invariant
            i <= n,
            n == path@.len(),
            forall|k: int| 0 <= k < i ==> !is_relative_component_at(path@, k),
        decreases n - i,
    {
        if (i == 0 || path[i - 1] == PATH_SEPARATOR) && path[i] == PATH_DOT {
            if i + 1 == n || path[i + 1] == PATH_SEPARATOR {
                assert(is_relative_component_at(path@, i as int));
                return false;
            }
            if path[i + 1] == PATH_DOT && (i + 2 == n || path[i + 2] == PATH_SEPARATOR) {
                assert(is_relative_component_at(path@, i as int));
                return false;
            }
        }
        i = i + 1;
    }
    true
}

/// Whether the resolved path `path` is `root` or lies below it. Whole
/// components count: `/srv/static-old` is not inside `/srv/static`.
pub open spec fn lies_within(path: Seq<u8>, root: Seq<u8>) -> bool {
    &&& root.len() <= path.len()
    &&& path.subrange(0, root.len() as int) == root
    &&& (root.len() == 0 || path.len() == root.len() || root.last() == PATH_SEPARATOR
        || path[root.len() as int] == PATH_SEPARATOR)
}

/// Decides whether a resolved path is the resolved root or lies below it.
pub fn is_within(path: &[u8], root: &[u8]) -> (inside: bool)
    ensures
        inside == lies_within(path@, root@),
{
    if root.len() > path.len() {
        return false;
    }
    let mut i: usize = 0;
    while i < root.len()
        invariant
            i <= root.len() <= path.len(),
            forall|k: int| 0 <= k < i ==> path@[k] == root@[k],
        decreases root.len() - i,
    {
        if path[i] != root[i] {
            assert(path@.subrange(0, root@.len() as int)[i as int] != root@[i as int]);
            return false;
        }
        i = i + 1;
    }
    assert(path@.subrange(0, root@.len() as int) =~= root@);
    if root.len() == 0 || path.len() == root.len() {
        return true;
    }
    root[root.len() - 1] == PATH_SEPARATOR || path[root.len()] == PATH_SEPARATOR
}

/// Whether the last component of `path` is `..`, which names no file.
pub open spec fn names_parent(path: Seq<u8>) -> bool {
    let n = path.len() as int;
    &&& n >= 2
    &&& path[n - 1] == PATH_DOT
    &&& path[n - 2] == PATH_DOT
    &&& (n == 2 || path[n - 3] == PATH_SEPARATOR)
}

/// Whether the extension of `path` starts behind the dot at `dot`: that dot
/// is the last one in the file name, and not the file name's first byte.
pub open spec fn is_extension_dot(path: Seq<u8>, dot: int) -> bool {
    &&& 0 < dot < path.len()
    &&& path[dot] == PATH_DOT
    &&& path[dot - 1] != PATH_SEPARATOR
    &&& forall|k: int| dot < k < path.len() ==> path[k] != PATH_DOT && path[k] != PATH_SEPARATOR
    &&& !names_parent(path)
}

/// The extension of the file that a resolved path names: what follows the
/// last dot of the file name. There is none where the file name has no dot,
/// or only the one it starts with.
pub open spec fn extension_of(path: Seq<u8>) -> Option<Seq<u8>> {
    if exists|dot: int| is_extension_dot(path, dot) {
        let dot = choose|dot: int| is_extension_dot(path, dot);
        Some(path.subrange(dot + 1, path.len() as int))
    } else {
        None
    }
}

/// A path has at most one dot that starts its extension.
pub proof fn lemma_extension_dot_unique(path: Seq<u8>, a: int, b: int)
    requires
        is_extension_dot(path, a),
        is_extension_dot(path, b),
    ensures
        a == b,
{
}

/// Where the place of the extension's dot is known, so is the extension.
pub proof fn lemma_extension_at(path: Seq<u8>, dot: int)
    requires
        is_extension_dot(path, dot),
    ensures
        extension_of(path) == Some(path.subrange(dot + 1, path.len() as int)),
{
    let chosen = choose|d: int| is_extension_dot(path, d);
    lemma_extension_dot_unique(path, dot, chosen);
}

/// The view of an optional byte vector.
pub open spec fn optional_vec_view(bytes: Option<Vec<u8>>) -> Option<Seq<u8>> {
    match bytes {
        Some(b) => Some(b@),
        None => None,
    }
}

/// Extracts the extension of the file that a resolved path names.
pub fn path_extension(path: &[u8]) -> (extension: Option<Vec<u8>>)
    ensures
        optional_vec_view(extension) == extension_of(path@),
{
    let n = path.len();
    if n >= 2 && path[n - 1] == PATH_DOT && path[n - 2] == PATH_DOT && (n == 2 || path[n - 3]
        == PATH_SEPARATOR) {
        assert(names_parent(path@));
        return None;
    }
    let mut i: usize = n;
    while i > 0
        invariant
            i <= n,
            n == path@.len(),
            !names_parent(path@),
            forall|k: int| i <= k < n ==> path@[k] != PATH_DOT && path@[k] != PATH_SEPARATOR,
        decreases i,
    {
        let c = path[i - 1];
        if c == PATH_SEPARATOR {
            assert forall|dot: int| !is_extension_dot(path@, dot) by {
                if is_extension_dot(path@, dot) {
                    if dot < i - 1 {
                        assert(path@[i - 1] == PATH_SEPARATOR);
                    }
                }
            }
            return None;
        }
        if c == PATH_DOT {
            if i >= 2 && path[i - 2] != PATH_SEPARATOR {
                proof {
                    lemma_extension_at(path@, i - 1);
                }
                return Some(slice_to_vec(slice_subrange(path, i, n)));
            }
            assert forall|dot: int| !is_extension_dot(path@, dot) by {
                if is_extension_dot(path@, dot) {
                    if dot < i - 1 {
                        assert(path@[i - 1] == PATH_DOT);
                    }
                }
            }
            return None;
        }
        i = i - 1;
    }
    assert forall|dot: int| !is_extension_dot(path@, dot) by {}
    None
}

/// A kind of file that is served.
#[derive(Clone, Copy, Debug, PartialEq, Eq, Structural)]
pub enum ContentType {
    /// A stylesheet.
    Css,
}

impl ContentType {
    /// The value of the `Content-Type` header for this kind of file.
    pub open spec fn header_text(self) -> Seq<char> {
        match self {
            ContentType::Css => CSS_CONTENT_TYPE@,
        }
    }

    /// The value of the `Content-Type` header for this kind of file.
    pub fn header_value(&self) -> (value: &'static str)
        ensures
            value@ == self.header_text(),
    {
        match self {
            ContentType::Css => CSS_CONTENT_TYPE,
        }
    }
}

/// The kind of file that an extension stands for, if files with that
/// extension are served at all. Capitals count: `CSS` is not `css`.
pub open spec fn content_type_for(extension: Seq<u8>) -> Option<ContentType> {
    if extension == CSS_EXTENSION.spec_bytes() {
        Some(ContentType::Css)
    } else {
        None
    }
}

/// Looks an extension up in the list of those that are served. The content
/// type follows from the extension alone, never from what the file holds.
pub fn recognized_type(extension: &[u8]) -> (kind: Option<ContentType>)
    ensures
        kind == content_type_for(extension@),
{
    if same_bytes(extension, CSS_EXTENSION.as_bytes()) {
        Some(ContentType::Css)
    } else {
        None
    }
}

/// Why an asset is not served.
#[derive(Clone, Copy, Debug, PartialEq, Eq, Structural)]
pub enum AssetError {
    /// The request leads outside the asset root.
    PathTraversalRejected,
    /// There is no such file, it cannot be read, or files with its extension
    /// are not served.
    AssetNotFound,
}

impl AssetError {
    /// The status that the refusal is answered with.
    pub open spec fn spec_status(self) -> u16 {
        match self {
            AssetError::PathTraversalRejected => STATUS_BAD_REQUEST,
            AssetError::AssetNotFound => STATUS_NOT_FOUND,
        }
    }

    /// The status that the refusal is answered with.
    #[verifier::when_used_as_spec(spec_status)]
    pub fn status(self) -> (status: u16)
        ensures
            status == self.spec_status(),
    {
        match self {
            AssetError::PathTraversalRejected => STATUS_BAD_REQUEST,
            AssetError::AssetNotFound => STATUS_NOT_FOUND,
        }
    }
}

/// Leave to read one file and to serve it as the given kind.
#[derive(Debug, PartialEq, Eq)]
pub struct AssetGrant {
    pub path: Vec<u8>,
    pub content_type: ContentType,
}

/// What a verdict is to the specifications.
pub open spec fn verdict_view(verdict: Result<AssetGrant, AssetError>) -> Result<
    (Seq<u8>, ContentType),
    AssetError,
> {
    match verdict {
        Ok(grant) => Ok((grant.path@, grant.content_type)),
        Err(error) => Err(error),
    }
}

/// What is decided for a path that resolved to `path` under the resolved
/// asset root `root`. Either must have the form of a resolved path, and the
/// path must lie inside the root; else the request is refused as a
/// traversal, before the extension is looked at.
pub open spec fn resolved_verdict(path: Seq<u8>, root: Seq<u8>) -> Result<
    (Seq<u8>, ContentType),
    AssetError,
> {
    if !is_resolved(path) || !is_resolved(root) || !lies_within(path, root) {
        Err(AssetError::PathTraversalRejected)
    } else {
        match extension_of(path) {
            None => Err(AssetError::AssetNotFound),
            Some(extension) => match content_type_for(extension) {
                None => Err(AssetError::AssetNotFound),
                Some(kind) => Ok((path, kind)),
            },
        }
    }
}

/// What is decided for a request that did not resolve, because nothing
/// stands at its path or because there is no asset directory: a request that
/// climbs out of the root is refused as a traversal all the same, and any
/// other finds nothing.
pub open spec fn unresolved_verdict(subdir: Seq<u8>, asset: Seq<u8>) -> Result<
    (Seq<u8>, ContentType),
    AssetError,
> {
    if climbs_out(subdir, asset) {
        Err(AssetError::PathTraversalRejected)
    } else {
        Err(AssetError::AssetNotFound)
    }
}

/// What is decided for the request for `asset` in category `subdir`, whose
/// path resolved to `resolved` under the resolved asset root `root`; either
/// of the two is `None` where it did not resolve.
pub open spec fn asset_verdict(
    subdir: Seq<u8>,
    asset: Seq<u8>,
    resolved: Option<Seq<u8>>,
    root: Option<Seq<u8>>,
) -> Result<(Seq<u8>, ContentType), AssetError> {
    match (resolved, root) {
        (Some(path), Some(root)) => resolved_verdict(path, root),
        _ => unresolved_verdict(subdir, asset),
    }
}

/// Decides whether a requested asset may be read, from the two parts of the
/// request, the path that they resolved to and the resolved asset root.
pub fn static_asset_handler(
    subdir: &str,
    static_asset: &str,
    resolved: Option<&[u8]>,
    root: Option<&[u8]>,
) -> (verdict: Result<AssetGrant, AssetError>)
    ensures
        verdict_view(verdict) == asset_verdict(
            subdir.spec_bytes(),
            static_asset.spec_bytes(),
            optional_bytes_view(resolved),
            optional_bytes_view(root),
        ),
{
    let (path, root) = match (resolved, root) {
        (Some(path), Some(root)) => (path, root),
        _ => {
            if request_climbs_out(subdir, static_asset) {
                return Err(AssetError::PathTraversalRejected);
            }
            return Err(AssetError::AssetNotFound);
        },
    };
    if !has_resolved_form(path) || !has_resolved_form(root) || !is_within(path, root) {
        return Err(AssetError::PathTraversalRejected);
    }
    let extension = match path_extension(path) {
        Some(extension) => extension,
        None => {
            return Err(AssetError::AssetNotFound);
        },
    };
    match recognized_type(extension.as_slice()) {
        Some(kind) => Ok(AssetGrant { path: slice_to_vec(path), content_type: kind }),
        None => Err(AssetError::AssetNotFound),
    }
}

/// The answer to a request for an asset.
#[derive(Debug, PartialEq, Eq)]
pub struct AssetReply {
    pub status: u16,
    pub content_type: Option<ContentType>,
    pub body: String,
}

/// What an answer is to the specifications.
pub struct AssetReplyView {
    pub status: u16,
    pub content_type: Option<ContentType>,
    pub body: Seq<char>,
}

impl View for AssetReply {
    type V = AssetReplyView;

    open spec fn view(&self) -> AssetReplyView {
        AssetReplyView { status: self.status, content_type: self.content_type, body: self.body@ }
    }
}

/// The answer that carries a status and nothing else.
pub open spec fn bare_answer(status: u16) -> AssetReplyView {
    AssetReplyView { status, content_type: None, body: Seq::empty() }
}

/// The answer to a request, from the verdict on it and from what reading the
/// granted file gave (`None` where it could not be read).
pub open spec fn asset_answer(
    verdict: Result<(Seq<u8>, ContentType), AssetError>,
    contents: Option<Seq<char>>,
) -> AssetReplyView {
    match verdict {
        Ok((_, kind)) => match contents {
            Some(text) => AssetReplyView { status: STATUS_OK, content_type: Some(kind), body: text },
            None => bare_answer(STATUS_NOT_FOUND),
        },
        Err(error) => bare_answer(error.spec_status()),
    }
}

/// Composes the answer from the verdict and from what reading the file gave
/// (`None` where it could not be read). Only a granted file that was read is
/// served; every other answer has an empty body and says no more than its
/// status.
pub fn asset_reply(verdict: &Result<AssetGrant, AssetError>, contents: Option<String>) -> (reply:
    AssetReply)
    ensures
        reply@ == asset_answer(verdict_view(*verdict), optional_string_view(contents)),
{
    match verdict {
        Ok(grant) => match contents {
            Some(text) => AssetReply {
                status: STATUS_OK,
                content_type: Some(grant.content_type),
                body: text,
            },
            None => AssetReply { status: STATUS_NOT_FOUND, content_type: None, body: String::new() },
        },
        Err(error) => AssetReply { status: error.status(), content_type: None, body: String::new() },
    }
}

/// A request whose path resolves outside the asset root is answered with the
/// status for a bad request and an empty body, whatever the file at that
/// path holds.
pub proof fn lemma_path_outside_root_is_refused(
    subdir: Seq<u8>,
    asset: Seq<u8>,
    path: Seq<u8>,
    root: Seq<u8>,
    contents: Option<Seq<char>>,
)
    requires
        !lies_within(path, root),
    ensures
        asset_verdict(subdir, asset, Some(path), Some(root)) == Err::<
            (Seq<u8>, ContentType),
            AssetError,
        >(AssetError::PathTraversalRejected),
        asset_answer(asset_verdict(subdir, asset, Some(path), Some(root)), contents)
            == bare_answer(STATUS_BAD_REQUEST),
{
}

/// A request that climbs out of the asset root and names nothing is answered
/// like one that names something outside: with the status for a bad request
/// and an empty body. Whether anything stands outside the root cannot be
/// told from the answer.
pub proof fn lemma_climbing_request_is_refused(
    subdir: Seq<u8>,
    asset: Seq<u8>,
    resolved: Option<Seq<u8>>,
    root: Option<Seq<u8>>,
    contents: Option<Seq<char>>,
)
    requires
        climbs_out(subdir, asset),
        resolved is None || root is None,
    ensures
        asset_verdict(subdir, asset, resolved, root) == Err::<(Seq<u8>, ContentType), AssetError>(
            AssetError::PathTraversalRejected,
        ),
        asset_answer(asset_verdict(subdir, asset, resolved, root), contents) == bare_answer(
            STATUS_BAD_REQUEST,
        ),
{
}

/// A request whose category is `..` climbs out of the asset root, whatever
/// asset it names.
pub proof fn lemma_parent_category_climbs_out(asset: Seq<u8>)
    ensures
        climbs_out(seq![PATH_DOT, PATH_DOT], asset),
{
    let text = relative_path(seq![PATH_DOT, PATH_DOT], asset);
    let after_one = text.drop_first();
    let after_two = after_one.drop_first();
    assert(text[0] == PATH_DOT);
    assert(after_one[0] == PATH_DOT);
    assert(after_two[0] == PATH_SEPARATOR);
    assert(steps_above(after_two, 0, Seen::DotDot));
    assert(steps_above(after_one, 0, Seen::Dot));
}

/// A walk along a text that holds no dot never steps above the root.
pub proof fn lemma_walk_without_dots_stays_below(text: Seq<u8>, depth: nat, seen: Seen)
    requires
        forall|k: int| 0 <= k < text.len() ==> text[k] != PATH_DOT,
        seen == Seen::Nothing || seen == Seen::Name,
    ensures
        !steps_above(text, depth, seen),
    decreases text.len(),
{
    if text.len() > 0 {
        let rest = text.drop_first();
        assert forall|k: int| 0 <= k < rest.len() implies rest[k] != PATH_DOT by {
            assert(rest[k] == text[k + 1]);
        }
        if text[0] == PATH_SEPARATOR {
            lemma_walk_without_dots_stays_below(rest, depth_after(depth, seen)->0, Seen::Nothing);
        } else {
            lemma_walk_without_dots_stays_below(rest, depth, Seen::Name);
        }
    }
}

/// A request that holds no dot in its category and none in its asset does
/// not climb out of the asset root.
pub proof fn lemma_request_without_dots_stays_inside(subdir: Seq<u8>, asset: Seq<u8>)
    requires
        forall|k: int| 0 <= k < subdir.len() ==> subdir[k] != PATH_DOT,
        forall|k: int| 0 <= k < asset.len() ==> asset[k] != PATH_DOT,
    ensures
        !climbs_out(subdir, asset),
{
    lemma_walk_without_dots_stays_below(relative_path(subdir, asset), 0, Seen::Nothing);
}

/// A file is granted only if its path resolved, lies inside the asset root
/// and carries the extension of a stylesheet.
pub proof fn lemma_only_stylesheets_are_granted(
    subdir: Seq<u8>,
    asset: Seq<u8>,
    resolved: Option<Seq<u8>>,
    root: Option<Seq<u8>>,
)
    requires
        asset_verdict(subdir, asset, resolved, root) is Ok,
    ensures
        resolved is Some,
        root is Some,
        is_resolved(resolved->0),
        is_resolved(root->0),
        lies_within(resolved->0, root->0),
        extension_of(resolved->0) == Some(CSS_EXTENSION.spec_bytes()),
        asset_verdict(subdir, asset, resolved, root) == Ok::<(Seq<u8>, ContentType), AssetError>(
            (resolved->0, ContentType::Css),
        ),
{
}

/// A request for a file whose extension is not served is answered as if the
/// file were not there, whether it exists or not and whatever it holds: with
/// the status for what is not found and an empty body. Here the path either
/// resolved inside the asset root, or did not resolve and the request does
/// not climb out of the root.
pub proof fn lemma_unserved_extension_is_not_found(
    subdir: Seq<u8>,
    asset: Seq<u8>,
    resolved: Option<Seq<u8>>,
    root: Seq<u8>,
    contents: Option<Seq<char>>,
)
    requires
        match resolved {
            Some(path) => is_resolved(path) && is_resolved(root) && lies_within(path, root)
                && extension_of(path) != Some(CSS_EXTENSION.spec_bytes()),
            None => !climbs_out(subdir, asset),
        },
    ensures
        asset_verdict(subdir, asset, resolved, Some(root)) == Err::<
            (Seq<u8>, ContentType),
            AssetError,
        >(AssetError::AssetNotFound),
        asset_answer(asset_verdict(subdir, asset, resolved, Some(root)), contents) == bare_answer(
            STATUS_NOT_FOUND,
        ),
{
}

/// The extension of a path that ends in a dot and a text free of dots and
/// separators is that text, provided that the dot does not start the file
/// name.
pub proof fn lemma_extension_of_suffixed(front: Seq<u8>, extension: Seq<u8>)
    requires
        front.len() > 0,
        front.last() != PATH_SEPARATOR,
        extension.len() > 0,
        forall|k: int|
            0 <= k < extension.len() ==> extension[k] != PATH_DOT && extension[k]
                != PATH_SEPARATOR,
    ensures
        extension_of(front + seq![PATH_DOT] + extension) == Some(extension),
{
    let path = front + seq![PATH_DOT] + extension;
    let dot = front.len() as int;
    assert(path[dot] == PATH_DOT);
    assert(path[dot - 1] == front.last());
    assert forall|k: int| dot < k < path.len() implies path[k] != PATH_DOT && path[k]
        != PATH_SEPARATOR by {
        assert(path[k] == extension[k - dot - 1]);
    }
    assert(path[path.len() - 1] == extension[extension.len() - 1]);
    assert(is_extension_dot(path, dot));
    lemma_extension_at(path, dot);
    assert(path.subrange(dot + 1, path.len() as int) =~= extension);
}

/// A file that resolved below the asset root and whose extension is not that
/// of a stylesheet is not found. This holds of every resolved path made of
/// the root, a separator, a name and a plain extension.
pub proof fn lemma_unlisted_file_below_root_is_not_found(
    subdir: Seq<u8>,
    asset: Seq<u8>,
    root: Seq<u8>,
    name: Seq<u8>,
    extension: Seq<u8>,
)
    requires
        is_resolved(root),
        is_resolved(root + seq![PATH_SEPARATOR] + name + seq![PATH_DOT] + extension),
        name.len() > 0,
        name.last() != PATH_SEPARATOR,
        extension.len() > 0,
        forall|k: int|
            0 <= k < extension.len() ==> extension[k] != PATH_DOT && extension[k]
                != PATH_SEPARATOR,
        extension != CSS_EXTENSION.spec_bytes(),
    ensures
        asset_verdict(
            subdir,
            asset,
            Some(root + seq![PATH_SEPARATOR] + name + seq![PATH_DOT] + extension),
            Some(root),
        ) == Err::<(Seq<u8>, ContentType), AssetError>(AssetError::AssetNotFound),
{
    let front = root + seq![PATH_SEPARATOR] + name;
    let path = front + seq![PATH_DOT] + extension;
    assert(front.last() == name.last());
    lemma_extension_of_suffixed(front, extension);
    assert(path.subrange(0, root.len() as int) =~= root);
    assert(path[root.len() as int] == PATH_SEPARATOR);
    assert(lies_within(path, root));
}

} // verus!
