//! The configuration that the editor reads: it is supplied from outside
//! and never changed here, only completed from a base configuration.

#![allow(non_snake_case)]

use vstd::prelude::*;
use vstd::string::*;

use crate::plugins::lsp::LspConfig;
use crate::plugins::options::Options;
use crate::plugins::statusbar::StatusBarConfig;
use crate::plugins::theme::{opt_text, Theme};
use crate::text::same_text;

verus! {

/// A theme under its name.
#[derive(Clone, Debug)]
pub struct NamedTheme {
    pub name: String,
    pub theme: Theme,
}

/// A language server under its name.
#[derive(Clone, Debug)]
pub struct NamedLsp {
    pub name: String,
    pub config: LspConfig,
}

/// A key sequence and the action it is bound to.
#[derive(Clone, Debug)]
pub struct KeyBinding {
    pub keys: String,
    pub action: String,
}

#[derive(Debug)]
pub struct Config {
    pub opt: Options,
    /// The name of the theme in use.
    pub theme: Option<String>,
    pub themes: Vec<NamedTheme>,
    pub lsps: Vec<NamedLsp>,
    pub keymap: Vec<KeyBinding>,
    pub statusbar: Option<StatusBarConfig>,
}

/// The first theme of `themes` that is called `name`.
pub open spec fn theme_named(themes: Seq<NamedTheme>, name: Seq<char>) -> Option<Theme>
    decreases themes.len(),
{
    if themes.len() == 0 {
        None
    } else if themes[0].name@ == name {
        Some(themes[0].theme)
    } else {
        theme_named(themes.drop_first(), name)
    }
}

impl Config {
    /// The foreground and the background colour of the theme in use, as
    /// the theme writes them.
    pub open spec fn plain_colors(&self) -> (Option<Seq<char>>, Option<Seq<char>>) {
        match self.theme {
            Some(name) => match theme_named(self.themes@, name@) {
                Some(found) => (opt_text(found.Foreground), opt_text(found.Background)),
                None => (Theme::default_fields()[1], Theme::default_fields()[0]),
            },
            None => (Theme::default_fields()[1], Theme::default_fields()[0]),
        }
    }

    /// This configuration with its options and the name of its theme
    /// completed from `base`; themes, servers, key bindings and status bar
    /// are its own.
    pub fn merge(self, base: &Config) -> (out: Self)
        ensures
            out.opt == self.opt.merged(base.opt),
            out.theme == if self.theme is Some {
                self.theme
            } else {
                base.theme
            },
            out.themes == self.themes,
            out.lsps == self.lsps,
            out.keymap == self.keymap,
            out.statusbar == self.statusbar,
    {
        let theme = match self.theme {
            Some(name) => Some(name),
            None => match &base.theme {
                Some(name) => Some(name.clone()),
                None => None,
            },
        };
        Self {
            opt: self.opt.merge(&base.opt),
            theme,
            themes: self.themes,
            lsps: self.lsps,
            keymap: self.keymap,
            statusbar: self.statusbar,
        }
    }

    /// The theme in use: the one that `theme` names, or the default theme
    /// where no theme is named or none has that name.
    pub fn current_theme(&self) -> (t: Theme)
        ensures
            match self.theme {
                Some(name) => match theme_named(self.themes@, name@) {
                    Some(found) => t == found,
                    None => t.fields().map_values(|f: Option<String>| opt_text(f))
                        == Theme::default_fields(),
                },
                None => t.fields().map_values(|f: Option<String>| opt_text(f))
                    == Theme::default_fields(),
            },
    {
        match &self.theme {
            Some(name) => {
                let mut i: usize = 0;
                assert(self.themes@.subrange(0, self.themes.len() as int) =~= self.themes@);
                while i < self.themes.len()
                    invariant
                        i <= self.themes.len(),
                        self.theme == Some(*name),
                        theme_named(self.themes@, name@) == theme_named(
                            self.themes@.subrange(i as int, self.themes.len() as int),
                            name@,
                        ),
                    decreases self.themes.len() - i,
                {
                    let ghost rest = self.themes@.subrange(i as int, self.themes.len() as int);
                    assert(rest[0] == self.themes@[i as int]);
                    assert(rest.drop_first() =~= self.themes@.subrange(
                        i + 1,
                        self.themes.len() as int,
                    ));
                    if same_text(self.themes[i].name.as_str(), name.as_str()) {
                        return self.themes[i].theme.duplicate();
                    }
                    i = i + 1;
                }
                Theme::builtin()
            },
            None => Theme::builtin(),
        }
    }
}

impl Default for Config {
    /// Absolute line numbers, ordinary scrolling, tabs of two columns, a
    /// theme without a name, and the default status bar.
    fn default() -> (c: Self)
        ensures
            c.opt == (Options {
                relative_numbers: Some(false),
                natural_scroll: Some(false),
                tab_size: Some(2),
            }),
            c.theme matches Some(name) && name@.len() == 0,
            c.themes@.len() == 0,
            c.lsps@.len() == 0,
            c.keymap@.len() == 0,
            c.statusbar matches Some(bar) && bar.components@.len() == 4,
    {
        Self {
            opt: Options {
                relative_numbers: Some(false),
                natural_scroll: Some(false),
                tab_size: Some(2),
            },
            theme: Some(String::new()),
            themes: Vec::new(),
            lsps: Vec::new(),
            keymap: Vec::new(),
            statusbar: Some(StatusBarConfig::default()),
        }
    }
}

} // verus!
