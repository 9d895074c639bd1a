use vstd::prelude::*;

pub mod text;
pub mod order;
pub mod table;
pub mod marks;
pub mod discovery;
pub mod popover_network;
pub mod network_applet;
pub mod mesh_status;
pub mod mesh_resource;
pub mod wizard;
pub mod tags;
pub mod marks_bus;
pub mod workspace;
pub mod auto_mark;
pub mod app_switcher;
pub mod mesh_topology;
pub mod session;
pub mod watermark;
pub mod top_bar;
pub mod notifications;
pub mod palette;
pub mod template;
pub mod marks_worker;

verus! {

} // verus!
