//! Checks of a bundle's components against the instance they are to run
//! on: TEE kind, memory and vCPUs, the artifacts whose digests the
//! scheduler's configuration must allow, and the disk images it must
//! measure or keep.

use vstd::prelude::*;

verus! {

/// The kind of TEE an instance provides.
#[derive(Debug, Clone, Copy)]
pub enum TeeType {
    Sgx,
    Tdx,
}

/// The resources of an instance that a bundle is checked against.
#[derive(Debug, Clone, Copy)]
pub struct InstanceResources {
    pub tee: TeeType,
    /// Memory, in MiB.
    pub memory: u64,
    pub cpus: u16,
    /// Storage, in MiB.
    pub storage: u64,
}

/// The TDX part of a component.
#[derive(Debug, Clone)]
pub struct TdxComponent {
    /// Memory the VM needs, in MiB.
    pub memory: u64,
    pub cpus: u16,
    pub firmware: String,
    /// The kernel image, empty when there is none.
    pub kernel: String,
    /// The initial RAM disk, empty when there is none.
    pub initrd: String,
    /// The stage 2 disk image, empty when there is none.
    pub stage2_image: String,
    /// Whether the stage 2 image is kept on a persistent volume.
    pub stage2_persist: bool,
}

/// A bundle component, as far as the checks read it.
#[derive(Debug, Clone)]
pub struct Component {
    /// Whether it has an SGX enclave binary.
    pub has_elf: bool,
    /// Whether it has SGX metadata.
    pub has_sgx: bool,
    pub tdx: Option<TdxComponent>,
}

/// The mathematical view of a TDX component.
pub struct TdxView {
    pub memory: u64,
    pub cpus: u16,
    pub firmware: Seq<char>,
    pub kernel: Seq<char>,
    pub initrd: Seq<char>,
    pub stage2_image: Seq<char>,
    pub stage2_persist: bool,
}

impl View for TdxComponent {
    type V = TdxView;

    open spec fn view(&self) -> TdxView {
        TdxView {
            memory: self.memory,
            cpus: self.cpus,
            firmware: self.firmware@,
            kernel: self.kernel@,
            initrd: self.initrd@,
            stage2_image: self.stage2_image@,
            stage2_persist: self.stage2_persist,
        }
    }
}

/// The mathematical view of a component.
pub struct ComponentView {
    pub has_elf: bool,
    pub has_sgx: bool,
    pub tdx: Option<TdxView>,
}

impl View for Component {
    type V = ComponentView;

    open spec fn view(&self) -> ComponentView {
        ComponentView {
            has_elf: self.has_elf,
            has_sgx: self.has_sgx,
            tdx: match self.tdx {
                Some(t) => Some(t@),
                None => None,
            },
        }
    }
}

/// The kinds of artifact whose digest the configuration must allow.
#[derive(Debug, Clone, Copy)]
pub enum ArtifactKind {
    Firmware,
    Kernel,
    Initrd,
    Stage2,
}

/// The name under which the configuration knows an artifact kind.
pub open spec fn artifact_kind_name(k: ArtifactKind) -> Seq<char> {
    match k {
        ArtifactKind::Firmware => "firmware"@,
        ArtifactKind::Kernel => "kernel"@,
        ArtifactKind::Initrd => "initrd"@,
        ArtifactKind::Stage2 => "stage2"@,
    }
}

impl ArtifactKind {
    /// The name under which the configuration knows this artifact kind.
    pub fn name(&self) -> (r: &'static str)
        ensures
            r@ == artifact_kind_name(*self),
    {
        proof {
            reveal_strlit("firmware");
            reveal_strlit("kernel");
            reveal_strlit("initrd");
            reveal_strlit("stage2");
        }
        match self {
            ArtifactKind::Firmware => "firmware",
            ArtifactKind::Kernel => "kernel",
            ArtifactKind::Initrd => "initrd",
            ArtifactKind::Stage2 => "stage2",
        }
    }
}

/// Why a bundle's components were refused.
#[derive(Debug, Clone)]
pub enum ComponentError {
    NotOneComponent,
    MissingSgxMetadata,
    IncompatibleTee,
    MissingDigest(ArtifactKind),
    ExceedsMemory,
    ExceedsCpus,
    MissingLayerDigest,
    BadLayerDigest(String),
    MultipleVolumes,
}

/// The mathematical view of a component error.
pub enum ComponentErrorView {
    NotOneComponent,
    MissingSgxMetadata,
    IncompatibleTee,
    MissingDigest(ArtifactKind),
    ExceedsMemory,
    ExceedsCpus,
    MissingLayerDigest,
    BadLayerDigest(Seq<char>),
    MultipleVolumes,
}

impl View for ComponentError {
    type V = ComponentErrorView;

    open spec fn view(&self) -> ComponentErrorView {
        match self {
            ComponentError::NotOneComponent => ComponentErrorView::NotOneComponent,
            ComponentError::MissingSgxMetadata => ComponentErrorView::MissingSgxMetadata,
            ComponentError::IncompatibleTee => ComponentErrorView::IncompatibleTee,
            ComponentError::MissingDigest(k) => ComponentErrorView::MissingDigest(*k),
            ComponentError::ExceedsMemory => ComponentErrorView::ExceedsMemory,
            ComponentError::ExceedsCpus => ComponentErrorView::ExceedsCpus,
            ComponentError::MissingLayerDigest => ComponentErrorView::MissingLayerDigest,
            ComponentError::BadLayerDigest(n) => ComponentErrorView::BadLayerDigest(n@),
            ComponentError::MultipleVolumes => ComponentErrorView::MultipleVolumes,
        }
    }
}

/// The text of a component error.
pub open spec fn component_message(e: ComponentErrorView) -> Seq<char> {
    match e {
        ComponentErrorView::NotOneComponent => "only ORCs with exactly one component are currently supported"@,
        ComponentErrorView::MissingSgxMetadata => "missing SGX metadata in component"@,
        ComponentErrorView::IncompatibleTee => "ORC has incompatible TEE type"@,
        ComponentErrorView::MissingDigest(k) => "ORC is missing "@ + artifact_kind_name(k) + " digest"@,
        ComponentErrorView::ExceedsMemory => "ORC exceeds instance memory resources"@,
        ComponentErrorView::ExceedsCpus => "ORC exceeds instance vCPU resources"@,
        ComponentErrorView::MissingLayerDigest => "missing ORC layer digest"@,
        ComponentErrorView::BadLayerDigest(n) => "bad ORC layer digest for '"@ + n + "'"@,
        ComponentErrorView::MultipleVolumes => "multiple volumes not yet supported"@,
    }
}

impl ComponentError {
    /// The text of this error.
    pub fn to_string(&self) -> (r: String)
        ensures
            r@ == component_message(self@),
    {
        match self {
            ComponentError::NotOneComponent => String::from_str(
                "only ORCs with exactly one component are currently supported",
            ),
            ComponentError::MissingSgxMetadata => String::from_str(
                "missing SGX metadata in component",
            ),
            ComponentError::IncompatibleTee => String::from_str("ORC has incompatible TEE type"),
            ComponentError::MissingDigest(k) => {
                let mut s = String::from_str("ORC is missing ");
                s.append(k.name());
                s.append(" digest");
                s
            },
            ComponentError::ExceedsMemory => String::from_str(
                "ORC exceeds instance memory resources",
            ),
            ComponentError::ExceedsCpus => String::from_str("ORC exceeds instance vCPU resources"),
            ComponentError::MissingLayerDigest => String::from_str("missing ORC layer digest"),
            ComponentError::BadLayerDigest(n) => {
                let mut s = String::from_str("bad ORC layer digest for '");
                s.append(n.as_str());
                s.append("'");
                s
            },
            ComponentError::MultipleVolumes => String::from_str(
                "multiple volumes not yet supported",
            ),
        }
    }
}

/// What the rest of the deployment needs of an accepted component: the
/// artifacts to look up and have allowed, in order; the disk images to
/// measure; the images to keep on volumes; and the memory and vCPUs asked.
#[derive(Debug, Clone)]
pub struct ComponentPlan {
    pub artifacts: Vec<(ArtifactKind, String)>,
    pub qcow2_names: Vec<String>,
    pub volumes: Vec<String>,
    pub memory: u64,
    pub cpus: u16,
}

/// The mathematical view of a component plan.
pub struct PlanView {
    pub artifacts: Seq<(ArtifactKind, Seq<char>)>,
    pub qcow2_names: Seq<Seq<char>>,
    pub volumes: Seq<Seq<char>>,
    pub memory: u64,
    pub cpus: u16,
}

impl View for ComponentPlan {
    type V = PlanView;

    open spec fn view(&self) -> PlanView {
        PlanView {
            artifacts: self.artifacts@.map_values(|a: (ArtifactKind, String)| (a.0, a.1@)),
            qcow2_names: self.qcow2_names@.map_values(|s: String| s@),
            volumes: self.volumes@.map_values(|s: String| s@),
            memory: self.memory,
            cpus: self.cpus,
        }
    }
}

/// The artifacts of a TDX component to check, in order: the firmware; the
/// kernel if there is one; and, with a kernel, the initial RAM disk and the
/// stage 2 image where they are named.
pub open spec fn tdx_artifacts(t: TdxView) -> Seq<(ArtifactKind, Seq<char>)> {
    let fw = seq![(ArtifactKind::Firmware, t.firmware)];
    if t.kernel.len() == 0 {
        fw
    } else {
        let k = fw.push((ArtifactKind::Kernel, t.kernel));
        let i = if t.initrd.len() == 0 {
            k
        } else {
            k.push((ArtifactKind::Initrd, t.initrd))
        };
        if t.stage2_image.len() == 0 {
            i
        } else {
            i.push((ArtifactKind::Stage2, t.stage2_image))
        }
    }
}

/// Whether a TDX component has a stage 2 disk image (which needs a kernel).
pub open spec fn has_stage2(t: TdxView) -> bool {
    t.kernel.len() != 0 && t.stage2_image.len() != 0
}

/// What a component asks of an instance with TEE `tee`: an enclave binary
/// needs SGX metadata, SGX metadata needs an SGX instance and a TDX part a
/// TDX instance; a TDX part gives its artifacts, disk image and resources.
pub open spec fn spec_plan_component(c: ComponentView, tee: TeeType) -> Result<
    PlanView,
    ComponentErrorView,
> {
    if c.has_elf && !c.has_sgx {
        Err(ComponentErrorView::MissingSgxMetadata)
    } else if c.has_sgx && !(tee is Sgx) {
        Err(ComponentErrorView::IncompatibleTee)
    } else {
        match c.tdx {
            None => Ok(
                PlanView {
                    artifacts: Seq::empty(),
                    qcow2_names: Seq::empty(),
                    volumes: Seq::empty(),
                    memory: 0,
                    cpus: 0,
                },
            ),
            Some(t) => if !(tee is Tdx) {
                Err(ComponentErrorView::IncompatibleTee)
            } else {
                Ok(
                    PlanView {
                        artifacts: tdx_artifacts(t),
                        qcow2_names: if has_stage2(t) {
                            seq![t.stage2_image]
                        } else {
                            Seq::empty()
                        },
                        volumes: if has_stage2(t) && t.stage2_persist {
                            seq![t.stage2_image]
                        } else {
                            Seq::empty()
                        },
                        memory: t.memory,
                        cpus: t.cpus,
                    },
                )
            },
        }
    }
}

/// The plan of the components of a bundle: only bundles of exactly one
/// component are run.
pub open spec fn spec_plan_components(cs: Seq<ComponentView>, tee: TeeType) -> Result<
    PlanView,
    ComponentErrorView,
> {
    if cs.len() != 1 {
        Err(ComponentErrorView::NotOneComponent)
    } else {
        spec_plan_component(cs[0], tee)
    }
}

/// The views of some components.
pub open spec fn component_views(cs: Seq<Component>) -> Seq<ComponentView> {
    cs.map_values(|c: Component| c@)
}

/// A copy of a string.
fn copy_string(s: &String) -> (r: String)
    ensures
        r@ == s@,
{
    s.as_str().to_owned()
}

/// Checks a component against the instance's TEE and gives what the rest
/// of the deployment needs of it.
pub fn plan_component(c: &Component, tee: TeeType) -> (r: Result<ComponentPlan, ComponentError>)
    ensures
        match (r, spec_plan_component(c@, tee)) {
            (Ok(p), Ok(q)) => p@ == q,
            (Err(e), Err(f)) => e@ == f,
            _ => false,
        },
{
    if c.has_elf && !c.has_sgx {
        return Err(ComponentError::MissingSgxMetadata);
    }
    if c.has_sgx {
        match tee {
            TeeType::Sgx => {},
            TeeType::Tdx => {
                return Err(ComponentError::IncompatibleTee);
            },
        }
    }
    match &c.tdx {
        None => {
            let p = ComponentPlan {
                artifacts: Vec::new(),
                qcow2_names: Vec::new(),
                volumes: Vec::new(),
                memory: 0,
                cpus: 0,
            };
            assert(p@.artifacts =~= Seq::empty());
            assert(p@.qcow2_names =~= Seq::empty());
            assert(p@.volumes =~= Seq::empty());
            Ok(p)
        },
        Some(t) => {
            match tee {
                TeeType::Tdx => {},
                TeeType::Sgx => {
                    return Err(ComponentError::IncompatibleTee);
                },
            }
            let mut artifacts: Vec<(ArtifactKind, String)> = Vec::new();
            let mut qcow2_names: Vec<String> = Vec::new();
            let mut volumes: Vec<String> = Vec::new();
            artifacts.push((ArtifactKind::Firmware, copy_string(&t.firmware)));
            if !t.kernel.as_str().is_empty() {
                artifacts.push((ArtifactKind::Kernel, copy_string(&t.kernel)));
                if !t.initrd.as_str().is_empty() {
                    artifacts.push((ArtifactKind::Initrd, copy_string(&t.initrd)));
                }
                if !t.stage2_image.as_str().is_empty() {
                    artifacts.push((ArtifactKind::Stage2, copy_string(&t.stage2_image)));
                    qcow2_names.push(copy_string(&t.stage2_image));
                    if t.stage2_persist {
                        volumes.push(copy_string(&t.stage2_image));
                    }
                }
            }
            let p = ComponentPlan { artifacts, qcow2_names, volumes, memory: t.memory, cpus: t.cpus };
            let ghost tv = t@;
            assert(p@.artifacts =~= tdx_artifacts(tv));
            assert(p@.qcow2_names =~= (if has_stage2(tv) {
                seq![tv.stage2_image]
            } else {
                Seq::empty()
            }));
            assert(p@.volumes =~= (if has_stage2(tv) && tv.stage2_persist {
                seq![tv.stage2_image]
            } else {
                Seq::empty()
            }));
            Ok(p)
        },
    }
}

/// Checks the components of a bundle against the instance's TEE: only
/// bundles of exactly one component are run.
pub fn plan_components(cs: &Vec<Component>, tee: TeeType) -> (r: Result<ComponentPlan, ComponentError>)
    ensures
        match (r, spec_plan_components(component_views(cs@), tee)) {
            (Ok(p), Ok(q)) => p@ == q,
            (Err(e), Err(f)) => e@ == f,
            _ => false,
        },
{
    if cs.len() != 1 {
        return Err(ComponentError::NotOneComponent);
    }
    assert(component_views(cs@)[0] == cs@[0]@);
    plan_component(&cs[0], tee)
}

/// Whether the memory and vCPUs a plan asks fit the instance's, memory
/// checked first.
pub open spec fn spec_check_totals(p: PlanView, res: InstanceResources) -> Result<(), ComponentErrorView> {
    if p.memory > res.memory {
        Err(ComponentErrorView::ExceedsMemory)
    } else if p.cpus > res.cpus {
        Err(ComponentErrorView::ExceedsCpus)
    } else {
        Ok(())
    }
}

/// Checks that the memory and vCPUs a plan asks fit the instance's.
pub fn check_totals(p: &ComponentPlan, res: &InstanceResources) -> (r: Result<(), ComponentError>)
    ensures
        match (r, spec_check_totals(p@, *res)) {
            (Ok(_), Ok(_)) => true,
            (Err(e), Err(f)) => e@ == f,
            _ => false,
        },
{
    if p.memory > res.memory {
        return Err(ComponentError::ExceedsMemory);
    }
    if p.cpus > res.cpus {
        return Err(ComponentError::ExceedsCpus);
    }
    Ok(())
}

/// The digest recorded under `name`: the first entry with that name.
pub open spec fn lookup_digest(ds: Seq<(Seq<char>, Seq<u8>)>, name: Seq<char>) -> Option<Seq<u8>>
    decreases ds.len(),
{
    if ds.len() == 0 {
        None
    } else if ds[0].0 == name {
        Some(ds[0].1)
    } else {
        lookup_digest(ds.drop_first(), name)
    }
}

/// The views of recorded digests.
pub open spec fn digest_views(ds: Seq<(String, Vec<u8>)>) -> Seq<(Seq<char>, Seq<u8>)> {
    ds.map_values(|d: (String, Vec<u8>)| (d.0@, d.1@))
}

/// Finds the digest recorded under `name`.
fn find_digest(ds: &Vec<(String, Vec<u8>)>, name: &str) -> (r: Option<usize>)
    ensures
        match r {
            Some(i) => i < ds@.len() && lookup_digest(digest_views(ds@), name@) == Some(
                ds@[i as int].1@,
            ),
            None => lookup_digest(digest_views(ds@), name@) is None,
        },
{
    let ghost v = digest_views(ds@);
    assert(v.subrange(0, v.len() as int) =~= v);
    let mut i: usize = 0;
    while i < ds.len()
        invariant
            i <= ds@.len(),
            v == digest_views(ds@),
            lookup_digest(v, name@) == lookup_digest(v.subrange(i as int, v.len() as int), name@),
        decreases ds@.len() - i,
    {
        let ghost rest = v.subrange(i as int, v.len() as int);
        assert(rest[0] == (ds@[i as int].0@, ds@[i as int].1@));
        assert(rest.drop_first() =~= v.subrange(i + 1, v.len() as int));
        if crate::text::text_equal(ds[i].0.as_str(), name) {
            return Some(i);
        }
        i = i + 1;
    }
    None
}

/// The digest of an artifact, which the bundle must record under its name.
pub fn artifact_digest(kind: ArtifactKind, name: &str, ds: &Vec<(String, Vec<u8>)>) -> (r: Result<
    Vec<u8>,
    ComponentError,
>)
    ensures
        match (r, lookup_digest(digest_views(ds@), name@)) {
            (Ok(d), Some(e)) => d@ == e,
            (Err(e), None) => e@ == ComponentErrorView::MissingDigest(kind),
            _ => false,
        },
{
    match find_digest(ds, name) {
        Some(i) => Ok(crate::text::copy_bytes(ds[i].1.as_slice())),
        None => Err(ComponentError::MissingDigest(kind)),
    }
}

/// Whether a pulled layer's digest is the one the bundle records for it.
pub open spec fn spec_check_layer_digest(
    ds: Seq<(Seq<char>, Seq<u8>)>,
    name: Seq<char>,
    computed: Seq<u8>,
) -> Result<(), ComponentErrorView> {
    match lookup_digest(ds, name) {
        None => Err(ComponentErrorView::MissingLayerDigest),
        Some(d) => if d != computed {
            Err(ComponentErrorView::BadLayerDigest(name))
        } else {
            Ok(())
        },
    }
}

/// Checks a pulled layer's digest against the one the bundle records for
/// it.
pub fn check_layer_digest(ds: &Vec<(String, Vec<u8>)>, name: &str, computed: &[u8]) -> (r: Result<
    (),
    ComponentError,
>)
    ensures
        match (r, spec_check_layer_digest(digest_views(ds@), name@, computed@)) {
            (Ok(_), Ok(_)) => true,
            (Err(e), Err(f)) => e@ == f,
            _ => false,
        },
{
    match find_digest(ds, name) {
        None => Err(ComponentError::MissingLayerDigest),
        Some(i) => if !crate::text::bytes_equal(ds[i].1.as_slice(), computed) {
            Err(ComponentError::BadLayerDigest(name.to_owned()))
        } else {
            Ok(())
        },
    }
}

/// Checks that a deployment asks for at most one volume.
pub fn check_volume_count(volumes: &Vec<String>) -> (r: Result<(), ComponentError>)
    ensures
        r is Ok <==> volumes@.len() <= 1,
        r matches Err(e) ==> e@ == ComponentErrorView::MultipleVolumes,
{
    if volumes.len() > 1 {
        return Err(ComponentError::MultipleVolumes);
    }
    Ok(())
}

/// A component accepted for an instance matches its TEE (an enclave binary
/// comes with SGX metadata, SGX metadata needs an SGX instance, a TDX part
/// a TDX instance); the firmware is the first artifact checked; the disk
/// images to measure are stage 2 artifacts; and at most one image is kept
/// on a volume, and only one that is measured, so the deployment never
/// refuses it for having several volumes.
pub proof fn lemma_accepted_component(c: ComponentView, tee: TeeType)
    ensures
        spec_plan_component(c, tee) matches Ok(p) ==> {
            &&& c.has_elf ==> c.has_sgx
            &&& c.has_sgx ==> tee is Sgx
            &&& c.tdx is Some ==> tee is Tdx && p.artifacts.len() >= 1 && p.artifacts[0] == (
                ArtifactKind::Firmware,
                c.tdx->0.firmware,
            )
            &&& forall|i: int|
                0 <= i < p.qcow2_names.len() ==> p.artifacts.contains(
                    (ArtifactKind::Stage2, #[trigger] p.qcow2_names[i]),
                )
            &&& p.volumes.len() <= 1
            &&& forall|i: int| 0 <= i < p.volumes.len() ==> p.qcow2_names.contains(#[trigger] p.volumes[i])
        },
{
    if let Ok(p) = spec_plan_component(c, tee) {
        if let Some(t) = c.tdx {
            let a = tdx_artifacts(t);
            if has_stage2(t) {
                assert(a[a.len() - 1] == (ArtifactKind::Stage2, t.stage2_image));
                assert(p.qcow2_names[0] == t.stage2_image);
                assert(p.artifacts.contains((ArtifactKind::Stage2, p.qcow2_names[0])));
                if p.volumes.len() > 0 {
                    assert(p.qcow2_names.contains(p.volumes[0]));
                }
            }
        }
    }
}

} // verus!
