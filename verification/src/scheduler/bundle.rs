//! Size and type checks on the deployment bundles the scheduler pulls.

use vstd::prelude::*;
use crate::scheduler::metadata::Metadata;
use crate::text::text_equal;

verus! {

/// Media type of ORC config descriptors.
pub const OCI_TYPE_ORC_CONFIG: &'static str = "application/vnd.oasis.orc.config.v1+json";

/// Media type of ORC layer descriptors.
pub const OCI_TYPE_ORC_LAYER: &'static str = "application/vnd.oasis.orc.layer.v1";

/// Maximum size of the JSON-encoded ORC manifest (16 KiB).
pub const MAX_ORC_MANIFEST_SIZE: i64 = 16384;

/// Maximum size of an ORC layer (128 MiB).
pub const MAX_ORC_LAYER_SIZE: i64 = 134217728;

/// Maximum size of all ORC layers (128 MiB).
pub const MAX_ORC_TOTAL_SIZE: i64 = 134217728;

/// Why a bundle was refused.
#[derive(Debug, Clone, Copy, PartialEq, Eq)]
pub enum BundleError {
    InvalidConfigMediaType,
    ManifestTooBig,
    InvalidLayerMediaType,
    LayerTooBig,
    BundleTooBig,
    StorageExceeded,
    LocationNotSet,
}

/// The text of a bundle error.
pub open spec fn bundle_message(e: BundleError) -> Seq<char> {
    match e {
        BundleError::InvalidConfigMediaType => "invalid ORC config media type"@,
        BundleError::ManifestTooBig => "ORC manifest too big"@,
        BundleError::InvalidLayerMediaType => "invalid ORC layer media type"@,
        BundleError::LayerTooBig => "ORC layer too big"@,
        BundleError::BundleTooBig => "ORC bundle too big"@,
        BundleError::StorageExceeded => "ORC exceeds instance storage resources"@,
        BundleError::LocationNotSet => "bundle location not set"@,
    }
}

impl BundleError {
    /// The text of this error.
    pub fn to_string(&self) -> (r: String)
        ensures
            r@ == bundle_message(*self),
    {
        match self {
            BundleError::InvalidConfigMediaType => String::from_str("invalid ORC config media type"),
            BundleError::ManifestTooBig => String::from_str("ORC manifest too big"),
            BundleError::InvalidLayerMediaType => String::from_str("invalid ORC layer media type"),
            BundleError::LayerTooBig => String::from_str("ORC layer too big"),
            BundleError::BundleTooBig => String::from_str("ORC bundle too big"),
            BundleError::StorageExceeded => String::from_str("ORC exceeds instance storage resources"),
            BundleError::LocationNotSet => String::from_str("bundle location not set"),
        }
    }
}

/// Deployment metadata key under which the ORC bundle's location is set.
pub const METADATA_KEY_DEPLOYMENT_ORC_REF: &'static str = "net.oasis.deployment.orc.ref";

/// Where a deployment's bundle is to be pulled from: the value of its
/// bundle location metadata entry, which must be set.
pub fn bundle_location(metadata: &Metadata) -> (r: Result<&String, BundleError>)
    ensures
        match r {
            Ok(v) => metadata@.contains_key(METADATA_KEY_DEPLOYMENT_ORC_REF@)
                && metadata@[METADATA_KEY_DEPLOYMENT_ORC_REF@] == v@,
            Err(e) => e == BundleError::LocationNotSet && !metadata@.contains_key(
                METADATA_KEY_DEPLOYMENT_ORC_REF@,
            ),
        },
{
    match metadata.get(METADATA_KEY_DEPLOYMENT_ORC_REF) {
        Some(v) => Ok(v),
        None => Err(BundleError::LocationNotSet),
    }
}

/// An OCI content descriptor: media type and size.
#[derive(Debug, Clone)]
pub struct Descriptor {
    pub media_type: String,
    pub size: i64,
}

impl View for Descriptor {
    type V = (Seq<char>, i64);

    open spec fn view(&self) -> (Seq<char>, i64) {
        (self.media_type@, self.size)
    }
}

/// `a + b`, held within the range of `i64`.
pub open spec fn saturating_add_i64(a: i64, b: i64) -> i64 {
    if a + b > i64::MAX {
        i64::MAX
    } else if a + b < i64::MIN {
        i64::MIN
    } else {
        (a + b) as i64
    }
}

/// `a + b`, held within the range of `i64`.
fn add_saturating_i64(a: i64, b: i64) -> (r: i64)
    ensures
        r == saturating_add_i64(a, b),
{
    match a.checked_add(b) {
        Some(x) => x,
        None => if b > 0 {
            i64::MAX
        } else {
            i64::MIN
        },
    }
}

/// The layers from index `i` on, checked in order, with `total` bytes so far.
pub open spec fn check_layers_from(layers: Seq<(Seq<char>, i64)>, i: int, total: i64) -> Result<
    i64,
    BundleError,
>
    decreases layers.len() - i,
{
    if i < 0 || i >= layers.len() {
        if total > MAX_ORC_TOTAL_SIZE {
            Err(BundleError::BundleTooBig)
        } else {
            Ok(total)
        }
    } else if layers[i].0 != OCI_TYPE_ORC_LAYER@ {
        Err(BundleError::InvalidLayerMediaType)
    } else if layers[i].1 > MAX_ORC_LAYER_SIZE {
        Err(BundleError::LayerTooBig)
    } else {
        check_layers_from(layers, i + 1, saturating_add_i64(total, layers[i].1))
    }
}

/// Whether a bundle's config and layers are of the right types and sizes,
/// and its total size.
pub open spec fn spec_validate_descriptors(config: (Seq<char>, i64), layers: Seq<
    (Seq<char>, i64),
>) -> Result<i64, BundleError> {
    if config.0 != OCI_TYPE_ORC_CONFIG@ {
        Err(BundleError::InvalidConfigMediaType)
    } else if config.1 > MAX_ORC_MANIFEST_SIZE {
        Err(BundleError::ManifestTooBig)
    } else {
        check_layers_from(layers, 0, saturating_add_i64(0, config.1))
    }
}

/// The views of some descriptors.
pub open spec fn descriptor_views(ds: Seq<Descriptor>) -> Seq<(Seq<char>, i64)> {
    ds.map_values(|d: Descriptor| d@)
}

/// Checks a bundle's config and layer descriptors before pulling it, and
/// gives the total size they announce.
pub fn validate_descriptors(config: &Descriptor, layers: &Vec<Descriptor>) -> (r: Result<
    i64,
    BundleError,
>)
    ensures
        r == spec_validate_descriptors(config@, descriptor_views(layers@)),
{
    let ghost views = descriptor_views(layers@);
    if !text_equal(config.media_type.as_str(), OCI_TYPE_ORC_CONFIG) {
        return Err(BundleError::InvalidConfigMediaType);
    }
    if config.size > MAX_ORC_MANIFEST_SIZE {
        return Err(BundleError::ManifestTooBig);
    }
    let mut total = add_saturating_i64(0, config.size);
    let mut i: usize = 0;
    while i < layers.len()
        invariant
            i <= layers@.len(),
            views == descriptor_views(layers@),
            spec_validate_descriptors(config@, views) == check_layers_from(views, i as int, total),
        decreases layers@.len() - i,
    {
        let layer = &layers[i];
        assert(views[i as int] == layer@);
        if !text_equal(layer.media_type.as_str(), OCI_TYPE_ORC_LAYER) {
            return Err(BundleError::InvalidLayerMediaType);
        }
        if layer.size > MAX_ORC_LAYER_SIZE {
            return Err(BundleError::LayerTooBig);
        }
        total = add_saturating_i64(total, layer.size);
        i = i + 1;
    }
    if total > MAX_ORC_TOTAL_SIZE {
        return Err(BundleError::BundleTooBig);
    }
    Ok(total)
}

/// Layers checked from `i` on are of the layer type and within the layer
/// size, and the total accepted is within the bundle size.
proof fn lemma_check_layers_bounds(layers: Seq<(Seq<char>, i64)>, i: int, total: i64)
    requires
        0 <= i <= layers.len(),
    ensures
        check_layers_from(layers, i, total) matches Ok(t) ==> {
            &&& t <= MAX_ORC_TOTAL_SIZE
            &&& forall|j: int|
                i <= j < layers.len() ==> (#[trigger] layers[j]).0 == OCI_TYPE_ORC_LAYER@
                    && layers[j].1 <= MAX_ORC_LAYER_SIZE
        },
    decreases layers.len() - i,
{
    if i < layers.len() {
        lemma_check_layers_bounds(layers, i + 1, saturating_add_i64(total, layers[i].1));
    }
}

/// An accepted bundle has a config of the config type within the manifest
/// size, only layers of the layer type within the layer size, and a total
/// within the bundle size.
pub proof fn lemma_accepted_bundle_within_limits(
    config: (Seq<char>, i64),
    layers: Seq<(Seq<char>, i64)>,
)
    ensures
        spec_validate_descriptors(config, layers) matches Ok(t) ==> {
            &&& config.0 == OCI_TYPE_ORC_CONFIG@
            &&& config.1 <= MAX_ORC_MANIFEST_SIZE
            &&& t <= MAX_ORC_TOTAL_SIZE
            &&& forall|j: int|
                0 <= j < layers.len() ==> (#[trigger] layers[j]).0 == OCI_TYPE_ORC_LAYER@
                    && layers[j].1 <= MAX_ORC_LAYER_SIZE
        },
{
    lemma_check_layers_bounds(layers, 0, saturating_add_i64(0, config.1));
}


/// The bytes of a bundle pulled so far, in total and in the current layer.
pub struct PullBudget {
    total_orc_size: usize,
    layer_size: usize,
}

impl View for PullBudget {
    type V = (nat, nat);

    closed spec fn view(&self) -> (nat, nat) {
        (self.total_orc_size as nat, self.layer_size as nat)
    }
}

/// `a + b`, held within the range of `usize`.
pub open spec fn saturating_add_usize(a: nat, b: nat) -> nat {
    if a + b > usize::MAX {
        usize::MAX as nat
    } else {
        a + b
    }
}

impl PullBudget {
    /// A budget with nothing pulled yet.
    pub fn new() -> (r: PullBudget)
        ensures
            r@ == (0nat, 0nat),
    {
        PullBudget { total_orc_size: 0, layer_size: 0 }
    }

    /// Starts a layer whose server announced `content_length` bytes, if it
    /// did: a layer announced above the layer limit, or one that would take
    /// the bundle above its limit, is refused before any byte is read.
    pub fn start_layer(&mut self, content_length: Option<u64>) -> (r: Result<(), BundleError>)
        ensures
            final(self)@ == (old(self)@.0, 0nat),
            r == match content_length {
                None => Ok(()),
                Some(n) => if n > MAX_ORC_LAYER_SIZE {
                    Err(BundleError::LayerTooBig)
                } else if saturating_add_usize(old(self)@.0, n as nat) > MAX_ORC_TOTAL_SIZE {
                    Err(BundleError::BundleTooBig)
                } else {
                    Ok(())
                },
            },
    {
        self.layer_size = 0;
        if let Some(n) = content_length {
            if n > 134217728u64 {
                return Err(BundleError::LayerTooBig);
            }
            if self.total_orc_size.saturating_add(n as usize) > 134217728usize {
                return Err(BundleError::BundleTooBig);
            }
        }
        Ok(())
    }

    /// Accounts for a chunk of `len` bytes of the current layer: the layer
    /// must stay within the layer limit and the bundle within its limit.
    pub fn add_chunk(&mut self, len: usize) -> (r: Result<(), BundleError>)
        ensures
            saturating_add_usize(old(self)@.1, len as nat) > MAX_ORC_LAYER_SIZE ==> r == Err::<
                (),
                BundleError,
            >(BundleError::LayerTooBig),
            saturating_add_usize(old(self)@.1, len as nat) <= MAX_ORC_LAYER_SIZE
                && saturating_add_usize(old(self)@.0, len as nat) > MAX_ORC_TOTAL_SIZE ==> r
                == Err::<(), BundleError>(BundleError::BundleTooBig),
            r is Ok <==> saturating_add_usize(old(self)@.1, len as nat) <= MAX_ORC_LAYER_SIZE
                && saturating_add_usize(old(self)@.0, len as nat) <= MAX_ORC_TOTAL_SIZE,
            r is Ok ==> final(self)@ == (old(self)@.0 + len as nat, old(self)@.1 + len as nat),
    {
        self.layer_size = self.layer_size.saturating_add(len);
        if self.layer_size > 134217728usize {
            return Err(BundleError::LayerTooBig);
        }
        self.total_orc_size = self.total_orc_size.saturating_add(len);
        if self.total_orc_size > 134217728usize {
            return Err(BundleError::BundleTooBig);
        }
        Ok(())
    }

    /// The bytes pulled so far, in total.
    pub fn total(&self) -> (r: usize)
        ensures
            r == self@.0,
    {
        self.total_orc_size
    }
}

/// `a + b`, held within the range of `u64`.
pub open spec fn saturating_add_u64(a: u64, b: u64) -> u64 {
    if a + b > u64::MAX {
        u64::MAX
    } else {
        (a + b) as u64
    }
}

/// The storage an instance may use, in bytes, from its storage resource in
/// MiB.
pub fn available_storage(storage_mib: u64) -> (r: u64)
    requires
        storage_mib * 1048576 <= u64::MAX,
    ensures
        r == storage_mib * 1048576,
{
    storage_mib * 1024 * 1024
}

/// Adds a disk image's virtual size to the storage used so far; refused
/// when the instance's storage would be exceeded.
pub fn add_storage(used: u64, disk_size: u64, available: u64) -> (r: Result<u64, BundleError>)
    ensures
        r == (if saturating_add_u64(used, disk_size) > available {
            Err(BundleError::StorageExceeded)
        } else {
            Ok(saturating_add_u64(used, disk_size))
        }),
{
    let total = used.saturating_add(disk_size);
    if total > available {
        return Err(BundleError::StorageExceeded);
    }
    Ok(total)
}

/// Accounts for a chunk of `len` bytes streamed to the host, of which
/// `sent` were sent before: the bundle must stay within its limit.
pub fn add_streamed(sent: usize, len: usize) -> (r: Result<usize, BundleError>)
    ensures
        r == (if saturating_add_usize(sent as nat, len as nat) > MAX_ORC_TOTAL_SIZE {
            Err(BundleError::BundleTooBig)
        } else {
            Ok((sent + len) as usize)
        }),
{
    let total = sent.saturating_add(len);
    if total > 134217728usize {
        return Err(BundleError::BundleTooBig);
    }
    Ok(total)
}

} // verus!
