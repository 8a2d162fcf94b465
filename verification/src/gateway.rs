//! The file-operations gateway's value types and decisions.
//!
//! The host performs the native file dialog and the move to the
//! operating system's trash; this module fixes what their outcomes mean.
//! A cancelled dialog is a normal empty result, never an error.  A trash
//! failure keeps the catalog untouched: only a confirmed success may
//! remove an entry (see [`crate::catalog::Catalog::remove_entry`]).

use crate::catalog::{suggested_focus, Catalog};
use vstd::prelude::*;

verus! {

/// The outcome of the native open-file dialog: a chosen path, or the
/// dialog dismissed without a selection.
pub enum DialogOutcome {
    Selected(Vec<u8>),
    Cancelled,
}

/// Why a move to the host's trash failed: the file no longer exists,
/// the platform offers no trash facility, permission was denied, or
/// another input/output error arose.
#[derive(Clone, Copy, Debug, PartialEq, Eq, Structural)]
pub enum TrashError {
    NotFound,
    Unsupported,
    PermissionDenied,
    Io,
}

/// The catalog after the host reported on a move to trash: on success
/// the entry is removed and a next focus is suggested, on failure the
/// catalog stands untouched and the error is carried to the caller.
pub enum TrashUpdate {
    Removed { catalog: Catalog, focus: Option<usize> },
    Failed { catalog: Catalog, error: TrashError },
}

/// Applies the host's confirmed trash result for the entry at `i` to
/// the active catalog.  Only a confirmed success removes the entry; an
/// unconfirmed or failed delete never mutates the catalog.
pub fn apply_trash_result(
    catalog: Catalog,
    i: usize,
    result: Result<(), TrashError>,
) -> (r: TrashUpdate)
    requires
        i < catalog@.len(),
    ensures
        match result {
            Ok(()) => (r matches TrashUpdate::Removed { catalog: c, focus } && c@ == catalog@.remove(
                i as int,
            ) && (catalog.wf() ==> c.wf()) && focus == suggested_focus(
                catalog@.len() as int,
                i as int,
            )),
            Err(e) => (r matches TrashUpdate::Failed { catalog: c, error } && c@ == catalog@
                && error == e),
        },
{
    match result {
        Ok(()) => {
            let (rebuilt, focus) = catalog.remove_entry(i);
            TrashUpdate::Removed { catalog: rebuilt, focus }
        },
        Err(error) => TrashUpdate::Failed { catalog, error },
    }
}

/// The catalog seed a dialog outcome yields: the chosen path, or
/// nothing on cancellation — the "no selection" outcome, not an error.
pub fn dialog_seed(outcome: DialogOutcome) -> (r: Option<Vec<u8>>)
    ensures
        match outcome {
            DialogOutcome::Selected(p) => r == Some(p),
            DialogOutcome::Cancelled => r is None,
        },
{
    match outcome {
        DialogOutcome::Selected(p) => Some(p),
        DialogOutcome::Cancelled => None,
    }
}

/// The extension filter offered to the native file dialog.  It is a
/// convenience for the picker only: classification of a chosen file
/// still goes by content, never by extension.
pub fn dialog_filter_extensions() -> (r: Vec<String>)
    ensures
        r.deep_view() =~= seq!["ico"@, "gif"@, "png"@, "jpg"@, "jpeg"@, "webp"@],
{
    let mut v: Vec<String> = Vec::new();
    v.push(String::from_str("ico"));
    v.push(String::from_str("gif"));
    v.push(String::from_str("png"));
    v.push(String::from_str("jpg"));
    v.push(String::from_str("jpeg"));
    v.push(String::from_str("webp"));
    proof {
        assert(v.deep_view() =~= seq!["ico"@, "gif"@, "png"@, "jpg"@, "jpeg"@, "webp"@]);
    }
    v
}

} // verus!
