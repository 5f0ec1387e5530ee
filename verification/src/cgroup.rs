//! Deriving container and pod identity from cgroup path strings.
//!
//! Two path shapes are recognised: Kubernetes QoS-class slices (four or five
//! `/`-delimited segments, with the pod id wrapped in a
//! `kubepods(-besteffort)?-pod`...`.slice` segment and the container id in a
//! `cri-containerd-`...`.scope` segment) and plain systemd-unit Docker
//! containers (`/system.slice/docker-`...`.scope`).  Any other shape is not
//! a container, which is distinct from a parse error.

use vstd::prelude::*;

use crate::text::{
    split_string, split_text, starts_with_text, str_starts_with, strip_affixes, strip_text,
    string_views,
};

verus! {

/// Mathematical value of a [`ContainerIdentity`].
#[verifier::ext_equal]
pub struct IdentityView {
    pub container_id: Seq<char>,
    pub pod_id: Seq<char>,
}

/// Identity of a recognised container.  `pod_id` is empty for plain
/// (non-Kubernetes) container runtimes.
pub struct ContainerIdentity {
    pub container_id: String,
    pub pod_id: String,
}

impl View for ContainerIdentity {
    type V = IdentityView;

    open spec fn view(&self) -> IdentityView {
        IdentityView { container_id: self.container_id@, pod_id: self.pod_id@ }
    }
}

/// The identity carried by one pod segment and one container segment, if
/// both carry their mandatory wrapping.
pub open spec fn segment_identity(
    pod_seg: Seq<char>,
    pod_prefix: Seq<char>,
    c_seg: Seq<char>,
) -> Option<IdentityView> {
    match strip_text(pod_seg, pod_prefix, ".slice"@) {
        None => None,
        Some(pod) => match strip_text(c_seg, "cri-containerd-"@, ".scope"@) {
            None => None,
            Some(cid) => Some(IdentityView { container_id: cid, pod_id: pod }),
        },
    }
}

/// The identity carried by a Kubernetes QoS-slice path: four `/`-delimited
/// segments name the pod and container directly, five go through a
/// best-effort QoS slice.  (The segment count includes the empty segment
/// before the leading `/`.)
pub open spec fn kubernetes_identity(path: Seq<char>) -> Option<IdentityView> {
    let segs = split_text(path, '/');
    if segs.len() == 4 {
        segment_identity(segs[2], "kubepods-pod"@, segs[3])
    } else if segs.len() == 5 {
        segment_identity(segs[3], "kubepods-besteffort-pod"@, segs[4])
    } else {
        None
    }
}

/// The container identity named by a cgroup path, or nothing when the path
/// does not belong to a recognised container runtime.
pub open spec fn cgroup_identity(path: Seq<char>) -> Option<IdentityView> {
    if starts_with_text(path, "/kubepods.slice/kubepods"@) {
        kubernetes_identity(path)
    } else if starts_with_text(path, "/system.slice/docker-"@) {
        match strip_text(path, "/system.slice/docker-"@, ".scope"@) {
            None => None,
            Some(cid) => Some(
                IdentityView { container_id: cid, pod_id: Seq::<char>::empty() },
            ),
        }
    } else {
        None
    }
}

/// Parses one pod segment and one container segment.
fn parse_segments(pod_seg: &String, pod_prefix: &str, c_seg: &String) -> (r: Option<
    ContainerIdentity,
>)
    ensures
        r is Some <==> segment_identity(pod_seg@, pod_prefix@, c_seg@) is Some,
        r matches Some(ident) ==> segment_identity(pod_seg@, pod_prefix@, c_seg@) == Some(ident@),
{
    match strip_affixes(pod_seg.as_str(), pod_prefix, ".slice") {
        None => None,
        Some(pod) => match strip_affixes(c_seg.as_str(), "cri-containerd-", ".scope") {
            None => None,
            Some(cid) => Some(ContainerIdentity { container_id: cid, pod_id: pod }),
        },
    }
}

/// Parses a cgroup path into a container identity, or reports that the path
/// does not name a container.
pub fn parse_cgroup_path(path: &str) -> (r: Option<ContainerIdentity>)
    ensures
        r is Some <==> cgroup_identity(path@) is Some,
        r matches Some(ident) ==> cgroup_identity(path@) == Some(ident@),
{
    if str_starts_with(path, "/kubepods.slice/kubepods") {
        let segs = split_string(path, '/');
        proof {
            assert(string_views(segs@) == split_text(path@, '/'));
        }
        if segs.len() == 4 {
            let r = parse_segments(&segs[2], "kubepods-pod", &segs[3]);
            proof {
                assert(string_views(segs@)[2] == segs@[2]@);
                assert(string_views(segs@)[3] == segs@[3]@);
            }
            r
        } else if segs.len() == 5 {
            let r = parse_segments(&segs[3], "kubepods-besteffort-pod", &segs[4]);
            proof {
                assert(string_views(segs@)[3] == segs@[3]@);
                assert(string_views(segs@)[4] == segs@[4]@);
            }
            r
        } else {
            None
        }
    } else if str_starts_with(path, "/system.slice/docker-") {
        match strip_affixes(path, "/system.slice/docker-", ".scope") {
            None => None,
            Some(cid) => {
                let ident = ContainerIdentity { container_id: cid, pod_id: String::new() };
                Some(ident)
            },
        }
    } else {
        None
    }
}

} // verus!
