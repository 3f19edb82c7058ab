//! Path resolution and the file-copy policy.
//!
//! A `PathSpec` names a file either verbatim or relative to the
//! authenticated user's private directory. The library only builds the
//! path strings and decides whether a copy writes; reading, writing and
//! directory creation stay outside it.

use vstd::prelude::*;
use vstd::string::StringExecFns;

verus! {

/// Whether `CopyFile` may clobber an existing destination.
#[derive(Clone, Copy)]
pub enum OverwritePolicy {
    OverwriteExisting,
    IgnoreExisting,
}

/// A path either taken verbatim or resolved inside the authenticated
/// user's private directory.
pub enum PathSpec {
    UserDir(String),
    Normal(String),
}

/// Root of the per-user private directories.
pub open spec fn spec_userdir_root() -> Seq<char> {
    "rgldir/userdata"@
}

/// The private directory of one user.
pub open spec fn spec_userdir(username: Seq<char>) -> Seq<char> {
    spec_userdir_root() + "/"@ + username
}

/// The path a `PathSpec` resolves to for a given user.
pub open spec fn spec_resolve(p: &PathSpec, username: Seq<char>) -> Seq<char> {
    match p {
        PathSpec::UserDir(rel) => spec_userdir(username) + "/"@ + rel@,
        PathSpec::Normal(path) => path@,
    }
}

/// The private directory of `username`, as a path string. Creating the
/// directory on disk is the caller's business.
pub fn userdir(username: &str) -> (r: String)
    ensures
        r@ == spec_userdir(username@),
{
    let mut s = "rgldir/userdata".to_owned();
    s.append("/");
    s.append(username);
    s
}

impl PathSpec {
    /// An exact copy.
    pub fn duplicate(&self) -> (r: PathSpec)
        ensures
            r == *self,
    {
        match self {
            PathSpec::UserDir(s) => PathSpec::UserDir(s.clone()),
            PathSpec::Normal(s) => PathSpec::Normal(s.clone()),
        }
    }

    /// Resolves to a path string: verbatim, or inside the user's private
    /// directory.
    pub fn resolve(&self, username: &str) -> (r: String)
        ensures
            r@ == spec_resolve(self, username@),
    {
        match self {
            PathSpec::UserDir(rel) => {
                let mut s = userdir(username);
                s.append("/");
                s.append(rel.as_str());
                s
            },
            PathSpec::Normal(p) => p.clone(),
        }
    }
}

/// Content of the destination after one `CopyFile`, as a function of the
/// destination's prior content (`None` when it does not exist) and of the
/// source's content.
pub open spec fn spec_copy_effect(
    policy: OverwritePolicy,
    dst: Option<Seq<u8>>,
    src: Seq<u8>,
) -> Seq<u8> {
    match policy {
        OverwritePolicy::OverwriteExisting => src,
        OverwritePolicy::IgnoreExisting => match dst {
            Option::Some(d) => d,
            Option::None => src,
        },
    }
}

/// Decides whether `CopyFile` writes at all: always under
/// `OverwriteExisting`, and only into a missing destination under
/// `IgnoreExisting`.
pub fn copy_needed(policy: &OverwritePolicy, dst_exists: bool) -> (r: bool)
    ensures
        r == (policy is OverwriteExisting || !dst_exists),
{
    match policy {
        OverwritePolicy::OverwriteExisting => true,
        OverwritePolicy::IgnoreExisting => !dst_exists,
    }
}

/// The copy step itself, on in-memory content: what the destination holds
/// after the action.
pub fn apply_copy(policy: &OverwritePolicy, dst: Option<&Vec<u8>>, src: &Vec<u8>) -> (r: Vec<u8>)
    ensures
        r@ == spec_copy_effect(
            *policy,
            (match dst {
                Option::Some(d) => Option::Some(d@),
                Option::None => Option::None,
            }),
            src@,
        ),
{
    let keep: bool = match (policy, &dst) {
        (OverwritePolicy::IgnoreExisting, Some(_)) => true,
        _ => false,
    };
    if keep {
        match dst {
            Some(d) => copy_bytes(d),
            None => copy_bytes(src),
        }
    } else {
        copy_bytes(src)
    }
}

fn copy_bytes(v: &Vec<u8>) -> (r: Vec<u8>)
    ensures
        r@ == v@,
{
    let mut out: Vec<u8> = Vec::new();
    let mut i: usize = 0;
    while i < v.len()
        invariant
            i <= v@.len(),
            out@ == v@.subrange(0, i as int),
        decreases v@.len() - i,
    {
        out.push(v[i]);
        assert(out@ =~= v@.subrange(0, i + 1));
        i = i + 1;
    }
    assert(out@ =~= v@);
    out
}

/// `CopyFile` under `IgnoreExisting` is idempotent: a second run finds
/// the destination present and leaves it exactly as the first run left
/// it, and a destination that already existed is never overwritten.
pub proof fn lemma_copy_ignore_existing_idempotent(dst: Option<Seq<u8>>, src: Seq<u8>)
    ensures
        spec_copy_effect(
            OverwritePolicy::IgnoreExisting,
            Some(spec_copy_effect(OverwritePolicy::IgnoreExisting, dst, src)),
            src,
        ) == spec_copy_effect(OverwritePolicy::IgnoreExisting, dst, src),
        dst matches Some(d) ==> spec_copy_effect(OverwritePolicy::IgnoreExisting, dst, src) == d,
{
}

/// Under `OverwriteExisting` the destination always reflects the latest
/// source content, whether or not it existed before.
pub proof fn lemma_copy_overwrite_takes_source(dst: Option<Seq<u8>>, src: Seq<u8>)
    ensures
        spec_copy_effect(OverwritePolicy::OverwriteExisting, dst, src) == src,
{
}

} // verus!
