//! What the program opens when it is started, and when it is started again.

use vstd::prelude::*;

verus! {

/// The name under which the program is known to the desktop.
pub const APP_ID: &'static str = "io.clipway.Clipway";

/// The window that is opened.
#[derive(Clone, Copy, Debug, PartialEq, Eq, Structural)]
pub enum Window {
    Popup,
    Preferences,
}

/// What the command lines have asked for so far.
pub struct Launch {
    /// Open the settings in place of the popup.
    pub preferences: bool,
    /// Open no window.
    pub background: bool,
    /// Save a picture of the popup to this file and end.
    pub screenshot: Option<String>,
}

impl Launch {
    /// Nothing is asked for yet.
    pub fn new() -> (res: Self)
        ensures
            !res.preferences,
            !res.background,
            res.screenshot is None,
    {
        Launch { preferences: false, background: false, screenshot: None }
    }

    /// Takes the options of a command line in. What was asked for once stays asked
    /// for; of several files the last one counts.
    pub fn take(&mut self, preferences: bool, background: bool, screenshot: Option<String>)
        ensures
            final(self).preferences == (old(self).preferences || preferences),
            final(self).background == (old(self).background || background),
            final(self).screenshot == match screenshot {
                Some(path) => Some(path),
                None => old(self).screenshot,
            },
    {
        if preferences {
            self.preferences = true;
        }
        if background {
            self.background = true;
        }
        if let Some(path) = screenshot {
            self.screenshot = Some(path);
        }
    }

    /// Does the program stay when its last window is closed?
    pub fn stays(&self) -> (res: bool)
        ensures
            res == (self.screenshot is None),
    {
        self.screenshot.is_none()
    }

    /// The window to open, and the file to save a picture of the popup to.
    pub fn activate(&self) -> (res: Option<(Window, Option<String>)>)
        ensures
            self.background ==> res is None,
            !self.background ==> (res matches Some((window, path)) && window == (
            if self.preferences {
                Window::Preferences
            } else {
                Window::Popup
            }) && match self.screenshot {
                Some(file) => path matches Some(copy) && copy@ == file@,
                None => path is None,
            }),
    {
        if self.background {
            return None;
        }
        let window = if self.preferences {
            Window::Preferences
        } else {
            Window::Popup
        };
        let path = match &self.screenshot {
            Some(file) => Some(file.clone()),
            None => None,
        };
        Some((window, path))
    }
}

} // verus!
