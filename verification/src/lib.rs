//! A small bookmark manager: accounts, owned bookmarks with tags, and the
//! decisions each web request makes, with their contracts proved by Verus.
use vstd::prelude::*;

pub mod accounts;
pub mod catalog;
pub mod flows;
pub mod model;
pub mod password;
pub mod paths;
pub mod sql;
pub mod tags;
pub mod web;
