//! The message vocabulary between the core and its provider plugins.

use crate::library::preferences::{DiagType, FieldType, PreferenceDiag};
use crate::library::LibraryItemModule;
use crate::smap::StringMap;
use vstd::prelude::*;

verus! {

/// Signals a plugin sends to report progress of a launched item.
#[derive(Debug)]
pub enum LibraryItemStatusSignals {
    /// An item has launched: (item uuid, pid).
    Launched(String, u32),
    Closed(String),
    Crashed(String),
}

/// Core --> plugin.
#[derive(Debug)]
pub enum CoreCommands {
    Reload,
    LaunchLibraryItem(String),
    RequestPreferenceDiag(DiagType),
    PreferenceDiagUpdate(DiagType, StringMap<FieldType>),
}

/// Plugin --> core.
#[derive(Debug)]
pub enum ModuleCommands {
    Refresh,
    AddLibraryItem(LibraryItemModule),
    AddLibraryItemBulk(Vec<LibraryItemModule>),
    ItemStatusSignal(LibraryItemStatusSignals),
    PreferenceDiagResponse(DiagType, PreferenceDiag),
}

/// A plugin task's own account of why it ended.
#[derive(Debug)]
pub enum ThreadDeathExcuse {
    HiracyDeath,
    Debug,
    Other(String),
}

/// Human-readable information about a plugin.
#[derive(Debug)]
pub struct ModuleInfo {
    pub name: String,
    pub url: Option<String>,
    pub developer: String,
    pub developer_url: Option<String>,
    pub description: Option<String>,
    pub icon: Option<String>,
}

impl Clone for ModuleInfo {
    fn clone(&self) -> (r: Self)
        ensures
            r == *self,
    {
        ModuleInfo {
            name: self.name.clone(),
            url: self.url.clone(),
            developer: self.developer.clone(),
            developer_url: self.developer_url.clone(),
            description: self.description.clone(),
            icon: self.icon.clone(),
        }
    }
}

} // verus!
