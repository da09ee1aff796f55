//! A small htmx application served from WebAssembly: an "about" page with a
//! click counter and a todo list, answered from a route table.
pub mod about;
pub mod markup;
pub mod request;
pub mod router;
pub mod service;
pub mod site;
pub mod text;
pub mod todos;
