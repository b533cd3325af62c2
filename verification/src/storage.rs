//! The application's saved settings and linked projects.

use vstd::prelude::*;

verus! {

/// A project linked to the application.
#[derive(Debug)]
pub struct StoredProject {
    pub id: String,
    pub name: String,
    pub category: String,
    pub file_count: usize,
    pub github_link: Option<String>,
    pub files_path: String,
}

/// Everything the application keeps between runs.
#[derive(Debug)]
pub struct AppStorage {
    pub theme: String,
    pub sidebar_collapsed: bool,
    pub projects: Vec<StoredProject>,
    pub api_mode: bool,
    pub openai_api_key: Option<String>,
    pub gemini_api_key: Option<String>,
}

impl AppStorage {
    /// The settings used when none were saved, or when the saved ones
    /// cannot be read: the light theme, an open sidebar, no projects, the
    /// web mode and no API keys.
    pub fn defaults() -> (s: AppStorage)
        ensures
            s.theme@ == "light"@,
            !s.sidebar_collapsed,
            s.projects@.len() == 0,
            !s.api_mode,
            s.openai_api_key is None,
            s.gemini_api_key is None,
    {
        AppStorage {
            theme: "light".to_owned(),
            sidebar_collapsed: false,
            projects: Vec::new(),
            api_mode: false,
            openai_api_key: None,
            gemini_api_key: None,
        }
    }

    /// Switches to the theme named `theme`, leaving the other settings as
    /// they are. The caller saves the settings afterwards.
    pub fn set_theme(&mut self, theme: &str)
        ensures
            final(self).theme@ == theme@,
            final(self).sidebar_collapsed == old(self).sidebar_collapsed,
            final(self).projects@ == old(self).projects@,
            final(self).api_mode == old(self).api_mode,
            final(self).openai_api_key == old(self).openai_api_key,
            final(self).gemini_api_key == old(self).gemini_api_key,
    {
        self.theme = theme.to_owned();
    }
}

} // verus!
