//! Mesh resources rendered as dock items: peers, mounted shares and
//! advertised services.
use vstd::prelude::*;
use vstd::string::*;
use crate::text::concat;

verus! {

/// One thing the mesh exposes that the panel can render as a dock item.
#[derive(Debug, Clone, PartialEq, Eq)]
pub enum MeshResource {
    /// A mesh peer.
    Peer {
        /// Hostname / mesh node name.
        name: String,
        /// Mesh IP.
        mesh_ip: Option<String>,
        /// Whether the peer has been seen as online in the last poll.
        online: bool,
    },
    /// A shared bucket exposed by a peer.
    MountedShare {
        /// Owning peer's name.
        peer: String,
        /// Bucket path.
        bucket: String,
    },
    /// A service the mesh advertises.
    Service {
        /// Owning peer's name (or `local`).
        peer: String,
        /// Service slug.
        slug: String,
        /// Service URL the dock click should open.
        url: String,
    },
}

/// Stable identifier of a resource.
pub open spec fn resource_id(r: MeshResource) -> Seq<char> {
    match r {
        MeshResource::Peer { name, .. } => "peer:"@ + name@,
        MeshResource::MountedShare { peer, bucket } => "share:"@ + peer@ + ":"@ + bucket@,
        MeshResource::Service { peer, slug, .. } => "svc:"@ + peer@ + ":"@ + slug@,
    }
}

/// Human-readable label of a resource.
pub open spec fn resource_label(r: MeshResource) -> Seq<char> {
    match r {
        MeshResource::Peer { name, online, .. } => if online {
            name@ + " (online)"@
        } else {
            name@ + " (offline)"@
        },
        MeshResource::MountedShare { peer, bucket } => peer@ + ": "@ + bucket@,
        MeshResource::Service { peer, slug, .. } => peer@ + ": "@ + slug@,
    }
}

impl MeshResource {
    /// Stable identifier used to look up the resource's icon and to dedupe
    /// entries in the dock's pin list.
    pub fn id(&self) -> (s: String)
        ensures
            s@ == resource_id(*self),
    {
        match self {
            MeshResource::Peer { name, .. } => concat("peer:", name.as_str()),
            MeshResource::MountedShare { peer, bucket } => {
                let a = concat("share:", peer.as_str());
                let b = concat(a.as_str(), ":");
                concat(b.as_str(), bucket.as_str())
            },
            MeshResource::Service { peer, slug, .. } => {
                let a = concat("svc:", peer.as_str());
                let b = concat(a.as_str(), ":");
                concat(b.as_str(), slug.as_str())
            },
        }
    }

    /// Human-readable label rendered in the dock tooltip.
    pub fn label(&self) -> (s: String)
        ensures
            s@ == resource_label(*self),
    {
        match self {
            MeshResource::Peer { name, online, .. } => if *online {
                concat(name.as_str(), " (online)")
            } else {
                concat(name.as_str(), " (offline)")
            },
            MeshResource::MountedShare { peer, bucket } => {
                let a = concat(peer.as_str(), ": ");
                concat(a.as_str(), bucket.as_str())
            },
            MeshResource::Service { peer, slug, .. } => {
                let a = concat(peer.as_str(), ": ");
                concat(a.as_str(), slug.as_str())
            },
        }
    }
}

} // verus!
