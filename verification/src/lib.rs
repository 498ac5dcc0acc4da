//! The built-in functions of a JavaScript engine for web pages.
pub mod activation_laws;
pub mod arr_laws;
pub mod arr_ops;
pub mod array_iter;
pub mod array_live;
pub mod array_search;
pub mod array_sort;
pub mod brands;
pub mod canvas;
pub mod canvas_laws;
pub mod class_list;
pub mod click;
pub mod code_units;
pub mod collect;
pub mod collect_laws;
pub mod date_laws;
pub mod dates;
pub mod define_laws;
pub mod descriptors;
pub mod dom;
pub mod element_laws;
pub mod elements;
pub mod entries;
pub mod event_laws;
pub mod function_laws;
pub mod functions;
pub mod globals;
pub mod heap;
pub mod host;
pub mod integrity;
pub mod json;
pub mod json_laws;
pub mod json_revive;
pub mod json_text;
pub mod listeners;
pub mod maths;
pub mod member_laws;
pub mod natives;
pub mod number;
pub mod number_format;
pub mod number_laws;
pub mod numeric_text;
pub mod object_laws;
pub mod objects;
pub mod page;
pub mod page_laws;
pub mod promise_laws;
pub mod promises;
pub mod property;
pub mod reflect;
pub mod regexp;
pub mod regexp_laws;
pub mod replace;
pub mod request_laws;
pub mod search_laws;
pub mod snap_laws;
pub mod str_laws;
pub mod str_ops;
pub mod strings;
pub mod symbols;
pub mod text;
pub mod tree;
pub mod tree_laws;
pub mod uri;
pub mod value;
pub mod value_laws;
pub mod wasm;
pub mod web;
pub mod web_laws;
pub mod web_state;
pub mod websocket;
