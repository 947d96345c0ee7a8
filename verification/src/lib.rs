use vstd::prelude::*;

pub mod alert;
pub mod body;
pub mod buttons;
pub mod cache;
pub mod color;
pub mod config;
pub mod ctl;
pub mod daemon;
pub mod keymaps;
pub mod links;
pub mod manager;
pub mod markup;
pub mod notification;
pub mod portal;
pub mod repeat;
pub mod text;

verus! {

} // verus!
