//! The layout of the status bar.

use vstd::prelude::*;
use vstd::string::*;

verus! {

#[derive(Debug)]
pub enum StatusComponent {
    /// Fixed text.
    Text(String),
    /// A field of the editor state: "filename", "mode", "git_branch".
    Field(String),
    /// A script expression that yields the text.
    Eval(String),
    Spacer,
    Group(Vec<StatusComponent>),
    Color { fg: Option<String>, bg: Option<String>, content: Box<StatusComponent> },
}

#[derive(Debug)]
pub struct StatusBarConfig {
    pub components: Vec<StatusComponent>,
}

impl Default for StatusBarConfig {
    /// The name of the editor, the file name, a spacer, and the position
    /// with the mode.
    fn default() -> (c: Self)
        ensures
            c.components@.len() == 4,
            c.components@[0] matches StatusComponent::Group(g) && g@.len() == 1 && (
            g@[0] matches StatusComponent::Text(t) && t@ == "Oxidy"@),
            c.components@[1] matches StatusComponent::Group(g) && g@.len() == 1 && (
            g@[0] matches StatusComponent::Field(t) && t@ == "filename"@),
            c.components@[2] is Spacer,
            c.components@[3] matches StatusComponent::Group(g) && g@.len() == 1 && (
            g@[0] matches StatusComponent::Eval(t) && t@ == "format('{}:{} {}', line, total_lines, mode)"@),
    {
        let mut title: Vec<StatusComponent> = Vec::new();
        title.push(StatusComponent::Text(String::from_str("Oxidy")));
        let mut file: Vec<StatusComponent> = Vec::new();
        file.push(StatusComponent::Field(String::from_str("filename")));
        let mut position: Vec<StatusComponent> = Vec::new();
        position.push(
            StatusComponent::Eval(String::from_str("format('{}:{} {}', line, total_lines, mode)")),
        );
        let mut components: Vec<StatusComponent> = Vec::new();
        components.push(StatusComponent::Group(title));
        components.push(StatusComponent::Group(file));
        components.push(StatusComponent::Spacer);
        components.push(StatusComponent::Group(position));
        Self { components }
    }
}

} // verus!
