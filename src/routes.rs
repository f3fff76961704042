//! The package's naming convention: which member serves which resource of
//! the scene service, and the service document that wraps the scene layer.

use vstd::prelude::*;
use vstd::string::StringExecFns;
use crate::content::CacheError;
use crate::text::{last_segment, after_last};

verus! {

/// The member that holds the scene layer description.
pub open spec fn scene_layer_path() -> Seq<char> {
    "3dSceneLayer.json.gz"@
}

/// The path of the scene layer member.
pub fn scene_layer_entry() -> (r: String)
    ensures
        r@ == scene_layer_path(),
{
    "3dSceneLayer.json.gz".to_owned()
}

/// The per-node resources of a scene layer.
#[derive(Debug, Clone, Copy, PartialEq, Eq, Structural)]
pub enum NodeAsset {
    /// The node index document.
    NodeIndex,
    /// The node's geometry buffer.
    Geometry,
    /// The node's JPEG texture, stored uncompressed.
    Texture,
    /// The node's DDS texture.
    DdsTexture,
    /// The node's feature data.
    Feature,
    /// The node's shared resources.
    SharedResource,
}

/// What follows the node identifier in the member path of `asset`.
pub open spec fn asset_suffix(asset: NodeAsset) -> Seq<char> {
    match asset {
        NodeAsset::NodeIndex => "/3dNodeIndexDocument.json.gz"@,
        NodeAsset::Geometry => "/geometries/0.bin.gz"@,
        NodeAsset::Texture => "/textures/0_0.jpg"@,
        NodeAsset::DdsTexture => "/textures/0_0_1.bin.dds.gz"@,
        NodeAsset::Feature => "/features/0.json.gz"@,
        NodeAsset::SharedResource => "/shared/sharedResource.json.gz"@,
    }
}

/// The member path of `asset` for the node `node`.
pub open spec fn node_path(node: Seq<char>, asset: NodeAsset) -> Seq<char> {
    "nodes/"@ + node + asset_suffix(asset)
}

fn suffix_of(asset: NodeAsset) -> (r: &'static str)
    ensures
        r@ == asset_suffix(asset),
{
    match asset {
        NodeAsset::NodeIndex => "/3dNodeIndexDocument.json.gz",
        NodeAsset::Geometry => "/geometries/0.bin.gz",
        NodeAsset::Texture => "/textures/0_0.jpg",
        NodeAsset::DdsTexture => "/textures/0_0_1.bin.dds.gz",
        NodeAsset::Feature => "/features/0.json.gz",
        NodeAsset::SharedResource => "/shared/sharedResource.json.gz",
    }
}

/// The member path that serves `asset` of the node `node`.
pub fn node_entry_path(node: &str, asset: NodeAsset) -> (r: String)
    ensures
        r@ == node_path(node@, asset),
{
    let mut s = "nodes/".to_owned();
    s.append(node);
    s.append(suffix_of(asset));
    s
}

/// The media type under which `asset` is served.
pub open spec fn asset_media_type(asset: NodeAsset) -> Seq<char> {
    match asset {
        NodeAsset::Geometry => "application/octet-stream; charset=binary"@,
        NodeAsset::Texture => "image/jpeg"@,
        NodeAsset::DdsTexture => "image/vnd-ms.dds"@,
        _ => "application/json"@,
    }
}

/// The media type under which `asset` is served.
pub fn content_type(asset: NodeAsset) -> (r: &'static str)
    ensures
        r@ == asset_media_type(asset),
{
    match asset {
        NodeAsset::Geometry => "application/octet-stream; charset=binary",
        NodeAsset::Texture => "image/jpeg",
        NodeAsset::DdsTexture => "image/vnd-ms.dds",
        _ => "application/json",
    }
}

/// The attachment file name a texture is served under; other assets are
/// served inline.
pub open spec fn asset_attachment(asset: NodeAsset) -> Option<Seq<char>> {
    match asset {
        NodeAsset::Texture => Some("0_0.jpg"@),
        NodeAsset::DdsTexture => Some("0_0_1.bin.dds"@),
        _ => None,
    }
}

/// The attachment file name a texture is served under.
pub fn attachment_name(asset: NodeAsset) -> (r: Option<&'static str>)
    ensures
        match r {
            Some(s) => asset_attachment(asset) == Some(s@),
            None => asset_attachment(asset) is None,
        },
{
    match asset {
        NodeAsset::Texture => Some("0_0.jpg"),
        NodeAsset::DdsTexture => Some("0_0_1.bin.dds"),
        _ => None,
    }
}

/// The service name announced for an archive: its name's last `.`-segment.
pub fn service_name(archive_name: &str) -> (r: String)
    ensures
        r@ == last_segment(archive_name@, '.'),
{
    after_last(archive_name, '.')
}

/// The scene service document: the service name and the scene layer
/// description, each embedded as it stands, inside the fixed metadata.
pub open spec fn scene_server_document(name: Seq<char>, layers: Seq<char>) -> Seq<char> {
    "\n        {\n            \"serviceName\": "@ + name
        + ",\n            \"name\": "@ + name
        + ",\n            \"currentVersion\": 10.6,\n            \"serviceVersion\": \"1.6\",\n            \"supportedBindings\": [\"REST\"],\n            \"layers\": "@
        + layers + "\n        }\n        "@
}

/// The scene service document for the service `slpk_name` whose scene layer
/// description is `layers`.
pub fn get_scene_server_json(slpk_name: &str, layers: &str) -> (r: String)
    ensures
        r@ == scene_server_document(slpk_name@, layers@),
{
    let mut s = "\n        {\n            \"serviceName\": ".to_owned();
    s.append(slpk_name);
    s.append(",\n            \"name\": ");
    s.append(slpk_name);
    s.append(",\n            \"currentVersion\": 10.6,\n            \"serviceVersion\": \"1.6\",\n            \"supportedBindings\": [\"REST\"],\n            \"layers\": ");
    s.append(layers);
    s.append("\n        }\n        ");
    s
}

/// The HTTP status a failure is reported with: 404 for the two kinds of
/// "not found", 500 for an archive that cannot be opened or decoded.
pub open spec fn status_of(e: CacheError) -> u16 {
    match e {
        CacheError::NotFound | CacheError::EntryNotFound => 404,
        CacheError::ArchiveOpen | CacheError::Decode => 500,
    }
}

/// The HTTP status a failure is reported with.
pub fn http_status(e: CacheError) -> (r: u16)
    ensures
        r == status_of(e),
{
    match e {
        CacheError::NotFound | CacheError::EntryNotFound => 404,
        CacheError::ArchiveOpen | CacheError::Decode => 500,
    }
}

} // verus!
