//! Paths into the blob store. The store itself is driven
//! asynchronously at the edge of the service; what belongs to the logic
//! — and is verified here — is how an artifact's path under the bucket
//! root is resolved and turned into a signed redirect target for the
//! local filesystem backend.
use vstd::prelude::*;

use crate::signature_v4::{spec_qs_of, PresignedUrl, SIGNATURE_TTL_SECS};
use crate::text::ascii_chars;

verus! {

/// Which backend a bucket's blob store runs on: the local filesystem,
/// whose signed URLs this service mints itself, or a remote store that
/// presigns its own.
#[derive(Clone, Copy, Debug, PartialEq, Eq, Structural)]
pub enum StorageScheme {
    Fs,
    Remote,
}

/// Relies on `opendal::raw::build_abs_path`: with a root of the form
/// `/…/`, the result is the root without its leading slash followed by
/// the relative path; the path `/` means the root itself.
#[verifier::external_body]
fn dal_abs_path(root: &str, path: &str) -> (r: String)
    requires
        root.is_ascii(),
        path.is_ascii(),
        root@.len() >= 1,
        root@[0] == '/',
        root@.last() == '/',
        path@ != "/"@ ==> path@.len() == 0 || path@[0] != '/',
    ensures
        r@ == if path@ == "/"@ {
            root@.skip(1)
        } else {
            root@.skip(1) + path@
        },
{
    opendal::raw::build_abs_path(root, path)
}

/// Relies on `opendal::raw::build_rel_path`: strips the root from a
/// path that lies under it; a path without a leading slash is matched
/// against the root without its own.
#[verifier::external_body]
fn dal_rel_path(root: &str, path: &str) -> (r: String)
    requires
        root.is_ascii(),
        path.is_ascii(),
        root@ != path@,
        root@.len() >= 1,
        path@.len() >= 1,
        path@[0] != '/',
        root@.len() - 1 <= path@.len(),
        path@.subrange(0, root@.len() - 1) == root@.skip(1),
    ensures
        r@ == path@.skip(root@.len() - 1),
{
    opendal::raw::build_rel_path(root, path)
}

/// Resolves where an artifact lives relative to the working directory:
/// the bucket root without its leading slash, the artifact's path under
/// it, and the working-directory prefix stripped off — exactly the path
/// the static route serves.
pub fn resolve_local_path(cwd: &str, root: &str, filename: &str) -> (r: String)
    requires
        cwd.is_ascii(),
        root.is_ascii(),
        filename.is_ascii(),
        root@.len() >= 1,
        root@[0] == '/',
        root@.last() == '/',
        root@.len() > 1 ==> root@[1] != '/',
        filename@.len() >= 1,
        filename@[0] != '/',
        filename@ != "/"@,
        cwd@.len() >= 1,
        cwd@ != root@.skip(1) + filename@,
        cwd@.len() - 1 <= root@.skip(1).len() + filename@.len(),
        (root@.skip(1) + filename@).subrange(0, cwd@.len() - 1) == cwd@.skip(1),
    ensures
        r@ == (root@.skip(1) + filename@).skip(cwd@.len() - 1),
{
    let abs = dal_abs_path(root, filename);
    proof {
        assert(vstd::utf8::is_ascii_chars(root@.skip(1)));
        vstd::utf8::is_ascii_chars_concat(abs@, root@.skip(1), filename@);
        if root@.len() > 1 {
            assert(abs@[0] == root@[1]);
        } else {
            assert(abs@[0] == filename@[0]);
        }
        assert(abs@[0] != '/');
    }
    dal_rel_path(cwd, abs.as_str())
}

/// The redirect target for a locally stored artifact: its
/// working-directory-relative path with the presigned query attached,
/// issued at `now` and valid for an hour.
pub fn local_signed_url(file_path: &str, access_token: &str, now: u64) -> (r: String)
    ensures
        r@ == file_path@ + "?"@ + ascii_chars(
            spec_qs_of(file_path@, "AWS4-HMAC-SHA256"@, access_token@, now, SIGNATURE_TTL_SECS),
        ),
{
    let p = PresignedUrl::new(file_path, access_token, now);
    p.to_url()
}

} // verus!
