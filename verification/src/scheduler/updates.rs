//! The updates the scheduler writes back to instances: completed commands,
//! deployment, metadata (its own identity and the last error) and node.

use vstd::prelude::*;
use vstd::utf8::{decode_utf8, encode_utf8, is_char_boundary};
use crate::scheduler::metadata::Metadata;
use crate::scheduler::plan::DesiredState;
use crate::text::{bytes_equal, copy_bytes};

verus! {

/// Metadata key under which deployment errors are reported.
pub const METADATA_KEY_ERROR: &'static str = "net.oasis.error";

/// Metadata key under which the scheduler's RAK is published.
pub const METADATA_KEY_SCHEDULER_RAK: &'static str = "net.oasis.scheduler.rak";

/// Maximum length of a reported error, in bytes.
pub const METADATA_VALUE_ERROR_MAX_SIZE: usize = 1024;

/// Updates to write back to one instance.
#[derive(Debug)]
pub struct InstanceUpdates {
    /// The last command processed, if commands were.
    pub complete_cmds: Option<u64>,
    /// The new deployment (its canonical encoding), if it changes.
    pub deployment: Option<Option<Vec<u8>>>,
    /// The new metadata, if it changes.
    pub metadata: Option<Metadata>,
    /// The node now hosting the instance, if it changes.
    pub node_id: Option<Vec<u8>>,
}

/// The mathematical view of instance updates.
pub struct UpdatesView {
    pub complete_cmds: Option<u64>,
    pub deployment: Option<Option<Seq<u8>>>,
    pub metadata: Option<Map<Seq<char>, Seq<char>>>,
    pub node_id: Option<Seq<u8>>,
}

/// The view of an optional byte vector.
pub open spec fn opt_seq(d: Option<Vec<u8>>) -> Option<Seq<u8>> {
    match d {
        Some(v) => Some(v@),
        None => None,
    }
}

impl View for InstanceUpdates {
    type V = UpdatesView;

    open spec fn view(&self) -> UpdatesView {
        UpdatesView {
            complete_cmds: self.complete_cmds,
            deployment: match self.deployment {
                Some(d) => Some(opt_seq(d)),
                None => None,
            },
            metadata: match self.metadata {
                Some(m) => Some(m@),
                None => None,
            },
            node_id: opt_seq(self.node_id),
        }
    }
}

/// Whether any update is set.
pub open spec fn any_update(u: UpdatesView) -> bool {
    u.complete_cmds is Some || u.deployment is Some || u.metadata is Some || u.node_id is Some
}

impl InstanceUpdates {
    /// No updates.
    pub fn new() -> (r: InstanceUpdates)
        ensures
            !any_update(r@),
    {
        InstanceUpdates { complete_cmds: None, deployment: None, metadata: None, node_id: None }
    }

    /// Whether there are any updates set.
    pub fn has_updates(&self) -> (r: bool)
        ensures
            r == any_update(self@),
    {
        self.complete_cmds.is_some() || self.deployment.is_some() || self.metadata.is_some()
            || self.node_id.is_some()
    }
}

/// The updates discovery records for an instance running `current`, once
/// its commands give `desired`: the last command processed, the desired
/// deployment when it differs, and the scheduler's RAK when the metadata
/// does not already publish it (in metadata holding only that entry).
pub open spec fn spec_discovered_updates(
    current: Option<Seq<u8>>,
    desired: Option<Seq<u8>>,
    last_processed_cmd: Option<u64>,
    metadata: Map<Seq<char>, Seq<char>>,
    rak: Seq<char>,
) -> UpdatesView {
    UpdatesView {
        complete_cmds: last_processed_cmd,
        deployment: if current != desired {
            Some(desired)
        } else {
            None
        },
        metadata: if metadata.contains_key(METADATA_KEY_SCHEDULER_RAK@) && metadata[METADATA_KEY_SCHEDULER_RAK@]
            == rak {
            None
        } else {
            Some(Map::empty().insert(METADATA_KEY_SCHEDULER_RAK@, rak))
        },
        node_id: None,
    }
}

/// The updates discovery records for an instance.
pub fn discovered_updates(
    current: Option<&[u8]>,
    desired: &DesiredState,
    metadata: &Metadata,
    scheduler_rak: &str,
) -> (r: InstanceUpdates)
    ensures
        r@ == spec_discovered_updates(
            match current {
                Some(c) => Some(c@),
                None => None,
            },
            desired@.deployment,
            desired.last_processed_cmd,
            metadata@,
            scheduler_rak@,
        ),
        r@.complete_cmds == desired.last_processed_cmd,
        r@.deployment == (if (match current {
            Some(c) => Some(c@),
            None => None,
        }) != desired@.deployment {
            Some(desired@.deployment)
        } else {
            None
        }),
{
    let same = match (current, &desired.deployment) {
        (Some(c), Some(d)) => bytes_equal(c, d.as_slice()),
        (None, None) => true,
        _ => false,
    };
    let deployment = if same {
        None
    } else {
        Some(
            match &desired.deployment {
                Some(d) => Some(copy_bytes(d.as_slice())),
                None => None,
            },
        )
    };
    let published = match metadata.get(METADATA_KEY_SCHEDULER_RAK) {
        Some(v) => crate::text::text_equal(v.as_str(), scheduler_rak),
        None => false,
    };
    let new_metadata = if published {
        None
    } else {
        let mut m = Metadata::new();
        m.insert(String::from_str(METADATA_KEY_SCHEDULER_RAK), String::from_str(scheduler_rak));
        Some(m)
    };
    InstanceUpdates {
        complete_cmds: desired.last_processed_cmd,
        deployment,
        metadata: new_metadata,
        node_id: None,
    }
}

/// The error text reported in metadata: the error, cut to at most
/// `METADATA_VALUE_ERROR_MAX_SIZE` bytes.
pub open spec fn truncated_error(e: Seq<char>) -> Seq<char> {
    if encode_utf8(e).len() <= METADATA_VALUE_ERROR_MAX_SIZE {
        e
    } else {
        decode_utf8(encode_utf8(e).subrange(0, METADATA_VALUE_ERROR_MAX_SIZE as int))
    }
}

/// Whether an error can be cut to the maximum size: it is short enough, or
/// the cut falls between characters (`String::truncate` panics otherwise).
pub open spec fn error_truncatable(e: Seq<char>) -> bool {
    encode_utf8(e).len() <= METADATA_VALUE_ERROR_MAX_SIZE || is_char_boundary(
        encode_utf8(e),
        METADATA_VALUE_ERROR_MAX_SIZE as int,
    )
}

/// Whether `e` can be cut to the maximum size for the metadata.
pub fn is_error_truncatable(e: &str) -> (r: bool)
    ensures
        r == error_truncatable(e@),
{
    let n = e.as_bytes().len();
    assert(n == encode_utf8(e@).len());
    n <= METADATA_VALUE_ERROR_MAX_SIZE || e.is_char_boundary(METADATA_VALUE_ERROR_MAX_SIZE)
}

/// The error text reported in metadata.
pub fn truncate_error(e: &str) -> (r: String)
    requires
        error_truncatable(e@),
    ensures
        r@ == truncated_error(e@),
{
    let n = e.as_bytes().len();
    assert(n == encode_utf8(e@).len());
    if e.len() <= METADATA_VALUE_ERROR_MAX_SIZE {
        return e.to_owned();
    }
    let (head, _) = e.split_at(METADATA_VALUE_ERROR_MAX_SIZE);
    proof {
        vstd::utf8::encode_utf8_decode_utf8(head@);
    }
    head.to_owned()
}

/// Metadata with the error entry set to the last error, or removed.
pub open spec fn with_error_entry(
    m: Map<Seq<char>, Seq<char>>,
    last_error: Option<Seq<char>>,
) -> Map<Seq<char>, Seq<char>> {
    match last_error {
        Some(e) => m.insert(METADATA_KEY_ERROR@, truncated_error(e)),
        None => m.remove(METADATA_KEY_ERROR@),
    }
}

/// The updates written back for an instance with metadata `current`, after
/// all jobs of a pass: the error entry follows the last error, metadata is
/// written only if it changes, and nothing is written if nothing changes.
pub open spec fn spec_finalized_updates(
    u: UpdatesView,
    current: Map<Seq<char>, Seq<char>>,
    last_error: Option<Seq<char>>,
) -> Option<UpdatesView> {
    let base = match u.metadata {
        Some(m) => m,
        None => current,
    };
    let m = with_error_entry(base, last_error);
    let v = UpdatesView {
        metadata: if m == current {
            None
        } else {
            Some(m)
        },
        ..u
    };
    if any_update(v) {
        Some(v)
    } else {
        None
    }
}

/// The view of an optional text.
pub open spec fn opt_chars(t: Option<&str>) -> Option<Seq<char>> {
    match t {
        Some(s) => Some(s@),
        None => None,
    }
}

/// The updates written back for an instance after all jobs of a pass.
pub fn finalize_updates(
    updates: InstanceUpdates,
    current: &Metadata,
    last_error: Option<&str>,
) -> (r: Option<InstanceUpdates>)
    requires
        last_error matches Some(e) ==> error_truncatable(e@),
    ensures
        match r {
            Some(x) => spec_finalized_updates(updates@, current@, opt_chars(last_error)) == Some(x@),
            None => spec_finalized_updates(updates@, current@, opt_chars(last_error)) is None,
        },
        written_metadata(updates@.metadata, current@, opt_chars(last_error)) != current@ ==> (r matches Some(
            x,
        ) && x@.metadata == Some(written_metadata(updates@.metadata, current@, opt_chars(last_error)))),
        r matches Some(x) ==> x@.complete_cmds == updates@.complete_cmds && x@.deployment
            == updates@.deployment && x@.node_id == updates@.node_id,
{
    let ghost u = updates@;
    let InstanceUpdates { complete_cmds, deployment, metadata, node_id } = updates;
    let mut m = match metadata {
        Some(m) => m,
        None => current.copy(),
    };
    match last_error {
        Some(e) => {
            let text = truncate_error(e);
            m.insert(String::from_str(METADATA_KEY_ERROR), text);
        },
        None => {
            m.remove(METADATA_KEY_ERROR);
        },
    }
    let metadata = if m.same_as(current) {
        None
    } else {
        Some(m)
    };
    let result = InstanceUpdates { complete_cmds, deployment, metadata, node_id };
    if result.has_updates() {
        Some(result)
    } else {
        None
    }
}

/// Discovery writes the desired deployment back exactly when it differs
/// from the current one, a terminated deployment as `Some(None)`; it
/// reports the last command processed; and it publishes the scheduler's
/// RAK, in metadata of that one entry, exactly when the metadata does not
/// already hold it.
pub proof fn lemma_discovered_deployment(
    current: Option<Seq<u8>>,
    desired: Option<Seq<u8>>,
    last: Option<u64>,
    metadata: Map<Seq<char>, Seq<char>>,
    rak: Seq<char>,
)
    ensures
        ({
            let u = spec_discovered_updates(current, desired, last, metadata, rak);
            &&& u.complete_cmds == last
            &&& current == desired ==> u.deployment is None
            &&& current != desired ==> u.deployment == Some(desired)
            &&& current is Some && desired is None ==> u.deployment == Some(None::<Seq<u8>>)
            &&& (metadata.contains_key(METADATA_KEY_SCHEDULER_RAK@)
                && metadata[METADATA_KEY_SCHEDULER_RAK@] == rak) ==> u.metadata is None
            &&& !(metadata.contains_key(METADATA_KEY_SCHEDULER_RAK@)
                && metadata[METADATA_KEY_SCHEDULER_RAK@] == rak) ==> u.metadata == Some(
                Map::<Seq<char>, Seq<char>>::empty().insert(METADATA_KEY_SCHEDULER_RAK@, rak),
            )
            &&& u.node_id is None
        }),
{
}

/// The metadata written back after a pass: the metadata queued by earlier
/// phases, or else the current metadata, with the error entry set to the
/// truncated last error, or removed when there is none.
pub open spec fn written_metadata(
    queued: Option<Map<Seq<char>, Seq<char>>>,
    current: Map<Seq<char>, Seq<char>>,
    last_error: Option<Seq<char>>,
) -> Map<Seq<char>, Seq<char>> {
    let base = match queued {
        Some(m) => m,
        None => current,
    };
    match last_error {
        Some(e) => base.insert(METADATA_KEY_ERROR@, truncated_error(e)),
        None => base.remove(METADATA_KEY_ERROR@),
    }
}

/// Finalizing keeps queued metadata as the base of what is written: the
/// result carries the written metadata exactly when it differs from the
/// current metadata, is written back whenever it does, keeps every other
/// queued update, and is dropped only when nothing at all changes.
pub proof fn lemma_finalized_keeps_queued_metadata(
    u: UpdatesView,
    current: Map<Seq<char>, Seq<char>>,
    last_error: Option<Seq<char>>,
)
    ensures
        ({
            let m = written_metadata(u.metadata, current, last_error);
            let r = spec_finalized_updates(u, current, last_error);
            &&& m != current ==> r == Some(UpdatesView { metadata: Some(m), ..u })
            &&& r matches Some(x) ==> x.metadata == (if m == current {
                None
            } else {
                Some(m)
            }) && x.complete_cmds == u.complete_cmds && x.deployment == u.deployment
                && x.node_id == u.node_id
            &&& r is None <==> (m == current && u.complete_cmds is None && u.deployment is None
                && u.node_id is None)
        }),
{
}

} // verus!
