//! Hearthdeck: the decision logic of a controller-first TV launcher.
pub mod text;
pub mod app;
pub mod details;
pub mod details_screen;
pub mod frontend;
pub mod dashboard;
pub mod health;
pub mod library_nav;
pub mod pages;
pub mod group_tabs;
pub mod romm_paging;
pub mod romm_consoles;
pub mod keys;
pub mod catalog;
pub mod tab_order;
pub mod rom_versions;
pub mod transitions;
pub mod toplevel;
pub mod settings;
pub mod providers;
pub mod discovery;
pub mod heroic;
pub mod icon_cache;
pub mod style;
pub mod input_ownership;
pub mod launch_state;
pub mod menu;
pub mod virtual_keyboard;
pub mod system_status;
pub mod controller_key;
pub mod navigation;
pub mod mapping;
pub mod axis;
pub mod gamepad_codes;
pub mod broker;
pub mod daemon;
pub mod app_group;
pub mod category_tabs;
pub mod facets;
pub mod observability;
pub mod json;
pub mod launcher_files;
