pub mod text;
pub mod bridge;
pub mod cluster;
pub mod config;
pub mod crud;
pub mod editor;
pub mod fuzzy;
pub mod keyed;
pub mod live;
pub mod logs;
pub mod menubar;
pub mod network;
pub mod palette;
pub mod plugin_api;
pub mod plugin_js;
pub mod prometheus;
pub mod promql;
pub mod push;
pub mod resource_table;
pub mod routes;
pub mod secret_detail;
pub mod settings;
pub mod shell;
pub mod shell_head;
pub mod starter;
pub mod status_badge;
pub mod switcher;
pub mod terminal;
pub mod test_bridge;
pub mod theme;
pub mod theme_catalog;
pub mod theme_opaline;
pub mod views;
pub mod workloads;
pub mod yaml;
