//! Game logic of the Aetheria client and of its `arbiter` server: items and
//! inventories, recipes and crafting, world interactions, the server's
//! connection table and the decisions of its packet handlers, keyboard and
//! mouse state, widget layout, and the choices made when setting up a
//! Vulkan swapchain.
pub mod text;
pub mod item;
pub mod inventory;
pub mod data;
pub mod entities;
pub mod indexed_map;
pub mod net;
pub mod server;
pub mod observable;
pub mod input;
pub mod vulkan;
pub mod shader;
pub mod assets;
pub mod paths;
pub mod ui;
pub mod panels;
pub mod render;
pub mod session;
