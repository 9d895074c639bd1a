use mde_shell::mesh_resource::MeshResource;

#[test]
fn peer_id_is_stable() {
    let r = MeshResource::Peer {
        name: "anvil".into(),
        mesh_ip: Some("100.64.0.7".into()),
        online: true,
    };
    assert_eq!(r.id(), "peer:anvil");
}

#[test]
fn service_id_includes_peer_and_slug() {
    let r = MeshResource::Service {
        peer: "anvil".into(),
        slug: "sublime-music".into(),
        url: "http://anvil.mesh:4040".into(),
    };
    assert_eq!(r.id(), "svc:anvil:sublime-music");
}

#[test]
fn label_reflects_online_state() {
    let online = MeshResource::Peer {
        name: "anvil".into(),
        mesh_ip: None,
        online: true,
    };
    let offline = MeshResource::Peer {
        name: "anvil".into(),
        mesh_ip: None,
        online: false,
    };
    assert!(online.label().contains("online"));
    assert!(offline.label().contains("offline"));
}

#[test]
fn share_id_and_label_name_peer_and_bucket() {
    let r = MeshResource::MountedShare {
        peer: "anvil".into(),
        bucket: "music".into(),
    };
    assert_eq!(r.id(), "share:anvil:music");
    assert_eq!(r.label(), "anvil: music");
    let offline = MeshResource::Peer {
        name: "birch".into(),
        mesh_ip: None,
        online: false,
    };
    assert_eq!(offline.label(), "birch (offline)");
}
