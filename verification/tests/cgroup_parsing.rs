//! Cgroup path parsing: the recognised Kubernetes and Docker shapes, and
//! paths that name no container.

use ccnp_server::cgroup::parse_cgroup_path;

#[test]
fn besteffort_pod_slice_is_parsed() {
    let path = "/kubepods.slice/kubepods-besteffort.slice/kubepods-besteffort-pod09ccf5d0_d223_44da_8813_26c8ce8f15fb.slice/cri-containerd-c4e80505ae28be204f266db2df901abd9b6e7a5222d733cd1e94e513af39994b.scope";
    let ident = parse_cgroup_path(path).unwrap();
    assert_eq!(ident.pod_id, "09ccf5d0_d223_44da_8813_26c8ce8f15fb");
    assert_eq!(
        ident.container_id,
        "c4e80505ae28be204f266db2df901abd9b6e7a5222d733cd1e94e513af39994b"
    );
}

#[test]
fn guaranteed_pod_slice_is_parsed() {
    let path = "/kubepods.slice/kubepods-pod1234abcd_0000_1111_2222_333344445555.slice/cri-containerd-deadbeefcafe.scope";
    let ident = parse_cgroup_path(path).unwrap();
    assert_eq!(ident.pod_id, "1234abcd_0000_1111_2222_333344445555");
    assert_eq!(ident.container_id, "deadbeefcafe");
}

#[test]
fn docker_systemd_unit_is_parsed() {
    let ident = parse_cgroup_path("/system.slice/docker-0123456789abcdef.scope").unwrap();
    assert_eq!(ident.container_id, "0123456789abcdef");
    assert_eq!(ident.pod_id, "");
}

#[test]
fn unrelated_path_is_no_container() {
    assert!(parse_cgroup_path("/user.slice").is_none());
    assert!(parse_cgroup_path("/system.slice/ssh.service").is_none());
    assert!(parse_cgroup_path("").is_none());
}

#[test]
fn kubernetes_path_with_wrong_wrapping_is_no_container() {
    // Missing the `.slice` suffix on the pod segment.
    assert!(parse_cgroup_path(
        "/kubepods.slice/kubepods-pod1234/cri-containerd-abcd.scope"
    )
    .is_none());
    // Missing the `cri-containerd-` prefix on the container segment.
    assert!(parse_cgroup_path(
        "/kubepods.slice/kubepods-pod1234.slice/abcd.scope"
    )
    .is_none());
    // Too many segments.
    assert!(parse_cgroup_path(
        "/kubepods.slice/a.slice/b.slice/kubepods-besteffort-pod1.slice/cri-containerd-c.scope"
    )
    .is_none());
}

#[test]
fn docker_path_without_scope_suffix_is_no_container() {
    assert!(parse_cgroup_path("/system.slice/docker-0123456789abcdef").is_none());
}
