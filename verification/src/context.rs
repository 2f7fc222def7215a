//! Which window a dictation is meant for.

use crate::text::copy_option;
use vstd::prelude::*;

pub mod proc;
pub mod sway;

verus! {

/// The focused window, as far as it is known.
#[derive(Debug, PartialEq, Eq)]
pub struct AppContext {
    pub compositor: Option<String>,
    pub app_id: Option<String>,
    pub class: Option<String>,
    pub instance: Option<String>,
    pub title: Option<String>,
    pub pid: Option<u32>,
    pub exe: Option<String>,
    pub cwd: Option<String>,
    pub container_id: Option<String>,
}

impl AppContext {
    /// Whether nothing is known of the window.
    pub open spec fn is_blank(self) -> bool {
        &&& self.compositor is None
        &&& self.app_id is None
        &&& self.class is None
        &&& self.instance is None
        &&& self.title is None
        &&& self.pid is None
        &&& self.exe is None
        &&& self.cwd is None
        &&& self.container_id is None
    }
}

impl Clone for AppContext {
    /// The same context once more.
    fn clone(&self) -> (copy: Self)
        ensures
            copy == *self,
    {
        AppContext {
            compositor: copy_option(&self.compositor),
            app_id: copy_option(&self.app_id),
            class: copy_option(&self.class),
            instance: copy_option(&self.instance),
            title: copy_option(&self.title),
            pid: self.pid,
            exe: copy_option(&self.exe),
            cwd: copy_option(&self.cwd),
            container_id: copy_option(&self.container_id),
        }
    }
}

impl Default for AppContext {
    /// A context of which nothing is known.
    fn default() -> (context: Self)
        ensures
            context.is_blank(),
    {
        AppContext {
            compositor: None,
            app_id: None,
            class: None,
            instance: None,
            title: None,
            pid: None,
            exe: None,
            cwd: None,
            container_id: None,
        }
    }
}

} // verus!
