use mirage::schema::Topology;
use mirage::topology::topology_plan;

#[test]
fn synthetic_tree_holds_topology_and_render_nodes() {
    let topology = Topology {
        files: vec![
            ("nodes/0/properties".to_string(), b"cpu_cores_count 8\ndrm_render_minor 0\n".to_vec()),
            ("nodes/1/properties".to_string(), b"simd_count 304\ndrm_render_minor 128\r\n".to_vec()),
            ("nodes/1/name".to_string(), b"gfx942\n".to_vec()),
            ("nodes/2/properties".to_string(), b"drm_render_minor  129 ".to_vec()),
        ],
    };
    let plan = topology_plan("/tmp/mirage/topo-s", &topology);
    assert_eq!(plan.dirs, vec!["/tmp/mirage/topo-s/dev/dri".to_string(), "/tmp/mirage/topo-s/dev".to_string()]);
    let paths: Vec<&str> = plan.files.iter().map(|(p, _)| p.as_str()).collect();
    assert_eq!(
        paths,
        vec![
            "/tmp/mirage/topo-s/sys/class/kfd/kfd/topology/nodes/0/properties",
            "/tmp/mirage/topo-s/sys/class/kfd/kfd/topology/nodes/1/properties",
            "/tmp/mirage/topo-s/sys/class/kfd/kfd/topology/nodes/1/name",
            "/tmp/mirage/topo-s/sys/class/kfd/kfd/topology/nodes/2/properties",
            "/tmp/mirage/topo-s/dev/dri/renderD128",
            "/tmp/mirage/topo-s/dev/dri/renderD129",
            "/tmp/mirage/topo-s/dev/kfd",
        ]
    );
    assert_eq!(plan.files[2].1, b"gfx942\n".to_vec());
    assert!(plan.files[4].1.is_empty());
}

#[test]
fn empty_topology_still_has_kfd_node() {
    let plan = topology_plan("/r/", &Topology { files: vec![] });
    assert_eq!(plan.files, vec![("/r/dev/kfd".to_string(), vec![])]);
}
