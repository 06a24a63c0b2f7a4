//! Lifecycle of the structured reference string.
//!
//! The context starts empty, is filled by a load that names a file, and is
//! emptied by a reset. Loading replaces whatever was loaded before. Proof
//! generation asks the context whether a reference string is there.

use vstd::prelude::*;
use vstd::utf8::encode_utf8;
use crate::path::{check_native_path, is_native_path};

verus! {

/// Why a reference string was not loaded.
#[derive(Clone, Copy, Debug, PartialEq, Eq)]
pub enum SrsError {
    /// The path holds a NUL byte.
    MalformedPath,
}

/// The reference string that proof generation works against: empty, or
/// loaded from the file at `srs_path`.
#[derive(Debug, PartialEq, Eq)]
pub struct SrsContext {
    pub srs_path: Option<String>,
}

impl View for SrsContext {
    type V = Option<Seq<char>>;

    /// `None` while empty, else the path that was loaded.
    open spec fn view(&self) -> Option<Seq<char>> {
        match self.srs_path {
            Some(path) => Some(path@),
            None => None,
        }
    }
}

/// The state after a load of `path` on `state`.
pub open spec fn after_load(state: Option<Seq<char>>, path: Seq<char>) -> Option<Seq<char>> {
    if is_native_path(encode_utf8(path)) {
        Some(path)
    } else {
        state
    }
}

/// The state after a reset.
pub open spec fn after_reset(state: Option<Seq<char>>) -> Option<Seq<char>> {
    None
}

impl SrsContext {
    /// The empty context.
    pub fn new() -> (ctx: SrsContext)
        ensures
            ctx@ is None,
    {
        SrsContext { srs_path: None }
    }

    /// Whether a reference string is loaded.
    pub fn is_loaded(&self) -> (b: bool)
        ensures
            b == (self@ is Some),
    {
        self.srs_path.is_some()
    }
}

/// Loads the reference string at `srs_path`, in place of any loaded before.
/// A path with a NUL byte is refused and leaves the context as it was.
pub fn read_srs(ctx: &mut SrsContext, srs_path: String) -> (r: Result<(), SrsError>)
    ensures
        final(ctx)@ == after_load(old(ctx)@, srs_path@),
        is_native_path(encode_utf8(srs_path@)) ==> r is Ok,
        !is_native_path(encode_utf8(srs_path@)) ==> r == Err::<(), SrsError>(
            SrsError::MalformedPath,
        ),
{
    if !check_native_path(srs_path.as_str().as_bytes()) {
        return Err(SrsError::MalformedPath);
    }
    ctx.srs_path = Some(srs_path);
    Ok(())
}

/// Releases the loaded reference string, if any.
pub fn reset_srs(ctx: &mut SrsContext)
    ensures
        final(ctx)@ == after_reset(old(ctx)@),
{
    ctx.srs_path = None;
}

/// Loading the same file again, with or without a reset in between, leaves
/// the context as the first load left it.
pub proof fn lemma_reload_restores_context(state: Option<Seq<char>>, path: Seq<char>)
    requires
        is_native_path(encode_utf8(path)),
    ensures
        after_load(after_reset(after_load(state, path)), path) == after_load(state, path),
        after_load(after_load(state, path), path) == after_load(state, path),
{
}

} // verus!
