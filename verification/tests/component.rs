use oasis_rofl_client::scheduler::component::{
    artifact_digest, check_layer_digest, check_totals, check_volume_count, plan_component,
    plan_components, ArtifactKind, Component, ComponentError, InstanceResources, TdxComponent,
    TeeType,
};

fn tdx(kernel: &str, initrd: &str, stage2: &str, persist: bool) -> Component {
    Component {
        has_elf: false,
        has_sgx: false,
        tdx: Some(TdxComponent {
            memory: 512,
            cpus: 2,
            firmware: "fw.bin".to_string(),
            kernel: kernel.to_string(),
            initrd: initrd.to_string(),
            stage2_image: stage2.to_string(),
            stage2_persist: persist,
        }),
    }
}

fn names(p: &[(ArtifactKind, String)]) -> Vec<(&'static str, String)> {
    p.iter().map(|(k, n)| (k.name(), n.clone())).collect()
}

fn resources(tee: TeeType, memory: u64, cpus: u16) -> InstanceResources {
    InstanceResources { tee, memory, cpus, storage: 100 }
}

#[test]
fn tdx_component_lists_artifacts_in_order() {
    let p = plan_component(&tdx("k", "i", "s.qcow2", true), TeeType::Tdx).unwrap();
    assert_eq!(
        names(&p.artifacts),
        vec![
            ("firmware", "fw.bin".to_string()),
            ("kernel", "k".to_string()),
            ("initrd", "i".to_string()),
            ("stage2", "s.qcow2".to_string()),
        ]
    );
    assert_eq!(p.qcow2_names, vec!["s.qcow2".to_string()]);
    assert_eq!(p.volumes, vec!["s.qcow2".to_string()]);
    assert_eq!((p.memory, p.cpus), (512, 2));
}

#[test]
fn tdx_component_without_kernel_checks_only_firmware() {
    let p = plan_component(&tdx("", "i", "s.qcow2", true), TeeType::Tdx).unwrap();
    assert_eq!(names(&p.artifacts), vec![("firmware", "fw.bin".to_string())]);
    assert!(p.qcow2_names.is_empty());
    assert!(p.volumes.is_empty());
}

#[test]
fn stage2_not_persisted_gets_no_volume() {
    let p = plan_component(&tdx("k", "", "s.qcow2", false), TeeType::Tdx).unwrap();
    assert_eq!(
        names(&p.artifacts),
        vec![
            ("firmware", "fw.bin".to_string()),
            ("kernel", "k".to_string()),
            ("stage2", "s.qcow2".to_string()),
        ]
    );
    assert_eq!(p.qcow2_names, vec!["s.qcow2".to_string()]);
    assert!(p.volumes.is_empty());
}

#[test]
fn tee_mismatch_is_refused() {
    let e = plan_component(&tdx("k", "", "", false), TeeType::Sgx).unwrap_err();
    assert_eq!(e.to_string(), "ORC has incompatible TEE type");
    let sgx = Component { has_elf: true, has_sgx: true, tdx: None };
    let e = plan_component(&sgx, TeeType::Tdx).unwrap_err();
    assert_eq!(e.to_string(), "ORC has incompatible TEE type");
    let p = plan_component(&sgx, TeeType::Sgx).unwrap();
    assert!(p.artifacts.is_empty());
    assert_eq!((p.memory, p.cpus), (0, 0));
}

#[test]
fn enclave_without_sgx_metadata_is_refused() {
    let c = Component { has_elf: true, has_sgx: false, tdx: None };
    let e = plan_component(&c, TeeType::Sgx).unwrap_err();
    assert_eq!(e.to_string(), "missing SGX metadata in component");
}

#[test]
fn only_single_component_bundles_are_run() {
    let e = plan_components(&vec![], TeeType::Tdx).unwrap_err();
    assert_eq!(e.to_string(), "only ORCs with exactly one component are currently supported");
    let two = vec![tdx("", "", "", false), tdx("", "", "", false)];
    assert!(matches!(plan_components(&two, TeeType::Tdx), Err(ComponentError::NotOneComponent)));
    assert!(plan_components(&vec![tdx("", "", "", false)], TeeType::Tdx).is_ok());
}

#[test]
fn totals_are_checked_memory_first() {
    let p = plan_component(&tdx("", "", "", false), TeeType::Tdx).unwrap();
    assert!(check_totals(&p, &resources(TeeType::Tdx, 512, 2)).is_ok());
    let e = check_totals(&p, &resources(TeeType::Tdx, 511, 1)).unwrap_err();
    assert_eq!(e.to_string(), "ORC exceeds instance memory resources");
    let e = check_totals(&p, &resources(TeeType::Tdx, 1024, 1)).unwrap_err();
    assert_eq!(e.to_string(), "ORC exceeds instance vCPU resources");
}

#[test]
fn artifact_digest_is_looked_up_by_name() {
    let ds = vec![("fw.bin".to_string(), vec![1, 2]), ("k".to_string(), vec![3])];
    assert_eq!(artifact_digest(ArtifactKind::Kernel, "k", &ds).unwrap(), vec![3]);
    let e = artifact_digest(ArtifactKind::Initrd, "i", &ds).unwrap_err();
    assert_eq!(e.to_string(), "ORC is missing initrd digest");
    let e = artifact_digest(ArtifactKind::Firmware, "x", &ds).unwrap_err();
    assert_eq!(e.to_string(), "ORC is missing firmware digest");
}

#[test]
fn layer_digest_must_match() {
    let ds = vec![("layer".to_string(), vec![7, 7])];
    assert!(check_layer_digest(&ds, "layer", &[7, 7]).is_ok());
    let e = check_layer_digest(&ds, "layer", &[7, 8]).unwrap_err();
    assert_eq!(e.to_string(), "bad ORC layer digest for 'layer'");
    let e = check_layer_digest(&ds, "other", &[7, 7]).unwrap_err();
    assert_eq!(e.to_string(), "missing ORC layer digest");
}

#[test]
fn at_most_one_volume_is_deployed() {
    assert!(check_volume_count(&vec![]).is_ok());
    assert!(check_volume_count(&vec!["a".to_string()]).is_ok());
    let e = check_volume_count(&vec!["a".to_string(), "b".to_string()]).unwrap_err();
    assert_eq!(e.to_string(), "multiple volumes not yet supported");
}

#[test]
fn accepted_component_volumes_pass_the_volume_check() {
    let p = plan_component(&tdx("k", "", "disk", true), TeeType::Tdx).unwrap();
    assert!(check_volume_count(&p.volumes).is_ok());
    assert!(p.qcow2_names.contains(&p.volumes[0]));
}
