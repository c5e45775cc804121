//! Key bindings per editor mode, and the notation in which they are
//! written: a single character such as `w`, or a combination in angle
//! brackets such as `<C-s>` or `<Enter>`.

use vstd::prelude::*;
use vstd::string::*;

use crate::input::InputEvent;
use crate::text::{from_chars, same_text, to_chars};
use crate::types::{EditorAction, EditorMode, Key, Modifiers};

verus! {

#[derive(Clone, Copy, Debug, PartialEq, Eq, Hash, Structural)]
pub struct KeyCombo {
    pub key: Key,
    pub mods: Modifiers,
}

/// `text` in lower case, as the standard library writes it.
pub uninterp spec fn lowercased(text: Seq<char>) -> Seq<char>;

/// `text` in lower case.
///
/// Trusted: `str::to_lowercase` of the standard library returns the
/// lowercase equivalent of the string as a new `String`. The contract only
/// names that result.
#[verifier::external_body]
pub(crate) fn to_lowercase(text: &str) -> (lower: String)
    ensures
        lower@ == lowercased(text@),
{
    text.to_lowercase()
}

/// The parts of `text` between the separators `sep`; a text without any is
/// one part.
pub open spec fn split_on(text: Seq<char>, sep: char) -> Seq<Seq<char>>
    decreases text.len(),
{
    if text.len() == 0 {
        seq![Seq::empty()]
    } else if text.last() == sep {
        split_on(text.drop_last(), sep).push(Seq::empty())
    } else {
        let front = split_on(text.drop_last(), sep);
        front.update(front.len() - 1, front.last().push(text.last()))
    }
}

/// The modifiers after the lower-case name `name` of one has been read; a
/// name that is none of a modifier changes nothing.
pub open spec fn with_modifier(mods: Modifiers, name: Seq<char>) -> Modifiers {
    if name == "c"@ || name == "ctrl"@ {
        Modifiers { ctrl: true, ..mods }
    } else if name == "a"@ || name == "alt"@ {
        Modifiers { alt: true, ..mods }
    } else if name == "s"@ || name == "shift"@ {
        Modifiers { shift: true, ..mods }
    } else if name == "super"@ || name == "cmd"@ || name == "meta"@ {
        Modifiers { super_key: true, ..mods }
    } else {
        mods
    }
}

/// The modifiers that the lower-case names `names[..upto]` set.
pub open spec fn modifiers_of(names: Seq<Seq<char>>, upto: int) -> Modifiers
    decreases upto,
{
    if upto <= 0 {
        Modifiers::none()
    } else {
        with_modifier(modifiers_of(names, upto - 1), names[upto - 1])
    }
}

/// The key that the lower-case name `name` denotes: a named key, or the
/// character itself where the name is a single character of one byte.
pub open spec fn key_named(name: Seq<char>) -> Key {
    if name == "esc"@ {
        Key::Esc
    } else if name == "enter"@ || name == "ret"@ || name == "return"@ {
        Key::Enter
    } else if name == "tab"@ {
        Key::Tab
    } else if name == "backspace"@ || name == "bs"@ {
        Key::Backspace
    } else if name == "left"@ {
        Key::Left
    } else if name == "right"@ {
        Key::Right
    } else if name == "up"@ {
        Key::Up
    } else if name == "down"@ {
        Key::Down
    } else if name == "home"@ {
        Key::Home
    } else if name == "end"@ {
        Key::End
    } else if name == "pageup"@ {
        Key::PageUp
    } else if name == "pagedown"@ {
        Key::PageDown
    } else if name == "delete"@ || name == "del"@ {
        Key::Delete
    } else if name == "insert"@ || name == "ins"@ {
        Key::Insert
    } else if name.len() == 1 && (name[0] as u32) < 0x80 {
        Key::Char(name[0])
    } else {
        Key::Unknown
    }
}

/// The combination that the lower-case parts `names` of a bracketed
/// notation denote: all but the last are modifiers, the last is the key.
pub open spec fn combo_of_names(names: Seq<Seq<char>>) -> KeyCombo {
    if names.len() == 0 {
        KeyCombo { key: Key::Unknown, mods: Modifiers::none() }
    } else {
        KeyCombo { key: key_named(names.last()), mods: modifiers_of(names, names.len() - 1) }
    }
}

/// The combination that the notation `s` denotes.
pub open spec fn combo_of(s: Seq<char>) -> KeyCombo {
    if s.len() == 1 && s[0] != '<' && (s[0] as u32) < 0x80 {
        KeyCombo { key: Key::Char(s[0]), mods: Modifiers::none() }
    } else if s.len() >= 2 && s[0] == '<' && s.last() == '>' {
        combo_of_names(
            split_on(s.subrange(1, s.len() - 1), '-').map_values(|p: Seq<char>| lowercased(p)),
        )
    } else {
        KeyCombo { key: Key::Unknown, mods: Modifiers::none() }
    }
}

/// The texts of `parts`.
pub open spec fn part_texts(parts: Seq<String>) -> Seq<Seq<char>> {
    parts.map_values(|p: String| p@)
}

fn modifier(mods: Modifiers, name: &str) -> (out: Modifiers)
    ensures
        out == with_modifier(mods, name@),
{
    if same_text(name, "c") || same_text(name, "ctrl") {
        Modifiers { ctrl: true, alt: mods.alt, shift: mods.shift, super_key: mods.super_key }
    } else if same_text(name, "a") || same_text(name, "alt") {
        Modifiers { ctrl: mods.ctrl, alt: true, shift: mods.shift, super_key: mods.super_key }
    } else if same_text(name, "s") || same_text(name, "shift") {
        Modifiers { ctrl: mods.ctrl, alt: mods.alt, shift: true, super_key: mods.super_key }
    } else if same_text(name, "super") || same_text(name, "cmd") || same_text(name, "meta") {
        Modifiers { ctrl: mods.ctrl, alt: mods.alt, shift: mods.shift, super_key: true }
    } else {
        mods
    }
}

fn named_key(name: &str) -> (key: Key)
    ensures
        key == key_named(name@),
{
    if same_text(name, "esc") {
        Key::Esc
    } else if same_text(name, "enter") || same_text(name, "ret") || same_text(name, "return") {
        Key::Enter
    } else if same_text(name, "tab") {
        Key::Tab
    } else if same_text(name, "backspace") || same_text(name, "bs") {
        Key::Backspace
    } else if same_text(name, "left") {
        Key::Left
    } else if same_text(name, "right") {
        Key::Right
    } else if same_text(name, "up") {
        Key::Up
    } else if same_text(name, "down") {
        Key::Down
    } else if same_text(name, "home") {
        Key::Home
    } else if same_text(name, "end") {
        Key::End
    } else if same_text(name, "pageup") {
        Key::PageUp
    } else if same_text(name, "pagedown") {
        Key::PageDown
    } else if same_text(name, "delete") || same_text(name, "del") {
        Key::Delete
    } else if same_text(name, "insert") || same_text(name, "ins") {
        Key::Insert
    } else if name.unicode_len() == 1 && (name.get_char(0) as u32) < 0x80 {
        Key::Char(name.get_char(0))
    } else {
        Key::Unknown
    }
}

/// Cuts `chars[from..to]` at every `sep`.
fn split_range(chars: &Vec<char>, from: usize, to: usize, sep: char) -> (parts: Vec<String>)
    requires
        from <= to <= chars@.len(),
    ensures
        part_texts(parts@) == split_on(chars@.subrange(from as int, to as int), sep),
        parts@.len() > 0,
{
    let mut parts: Vec<String> = Vec::new();
    let mut start: usize = from;
    let mut i: usize = from;
    let ghost text = chars@.subrange(from as int, to as int);
    proof {
        assert(text.subrange(0, 0) =~= Seq::<char>::empty());
        assert(chars@.subrange(start as int, i as int) =~= Seq::<char>::empty());
        assert(part_texts(parts@).push(Seq::<char>::empty()) =~= seq![Seq::<char>::empty()]);
    }
    while i < to
        invariant
            from <= start <= i <= to <= chars@.len(),
            text == chars@.subrange(from as int, to as int),
            split_on(text.subrange(0, i - from), sep) == part_texts(parts@).push(
                chars@.subrange(start as int, i as int),
            ),
        decreases to - i,
    {
        let ghost done = text.subrange(0, i - from);
        let ghost next = text.subrange(0, i + 1 - from);
        let ghost cur = chars@.subrange(start as int, i as int);
        let ghost before = part_texts(parts@);
        proof {
            assert(next.drop_last() =~= done);
            assert(next.last() == chars@[i as int]);
        }
        if chars[i] == sep {
            let part = from_chars(chars, start, i);
            parts.push(part);
            i = i + 1;
            start = i;
            proof {
                assert(part_texts(parts@) =~= before.push(cur));
                assert(chars@.subrange(start as int, i as int) =~= Seq::<char>::empty());
            }
        } else {
            i = i + 1;
            proof {
                assert(chars@.subrange(start as int, i as int) =~= cur.push(chars@[i - 1]));
                assert(before.push(cur).update(before.len() as int, cur.push(chars@[i - 1]))
                    =~= before.push(cur.push(chars@[i - 1])));
            }
        }
    }
    let ghost before = part_texts(parts@);
    let part = from_chars(chars, start, to);
    parts.push(part);
    proof {
        assert(text.subrange(0, to - from) =~= text);
        assert(part_texts(parts@) =~= before.push(chars@.subrange(start as int, to as int)));
    }
    parts
}

impl KeyCombo {
    /// The combination that the lower-case parts of a bracketed notation
    /// denote.
    pub fn from_names(names: &Vec<String>) -> (combo: Self)
        ensures
            combo == combo_of_names(part_texts(names@)),
    {
        let n = names.len();
        if n == 0 {
            return KeyCombo { key: Key::Unknown, mods: Modifiers::default() };
        }
        let mut mods = Modifiers::default();
        let mut i: usize = 0;
        let ghost texts = part_texts(names@);
        while i < n - 1
            invariant
                n == names.len(),
                n > 0,
                i <= n - 1,
                texts == part_texts(names@),
                mods == modifiers_of(texts, i as int),
            decreases n - 1 - i,
        {
            mods = modifier(mods, names[i].as_str());
            i = i + 1;
        }
        let key = named_key(names[n - 1].as_str());
        KeyCombo { key, mods }
    }

    /// Reads a key notation: a single character of one byte other than `<`
    /// is that key; `<..>` holds modifiers and a key, separated by `-` and
    /// read without regard to case; anything else is the unknown key.
    pub fn from_str(s: &str) -> (combo: Self)
        ensures
            combo == combo_of(s@),
    {
        let chars = to_chars(s);
        let n = chars.len();
        if n == 1 && chars[0] != '<' && (chars[0] as u32) < 0x80 {
            return KeyCombo { key: Key::Char(chars[0]), mods: Modifiers::default() };
        }
        if n >= 2 && chars[0] == '<' && chars[n - 1] == '>' {
            let parts = split_range(&chars, 1, n - 1, '-');
            let mut names: Vec<String> = Vec::new();
            let mut i: usize = 0;
            while i < parts.len()
                invariant
                    i <= parts.len(),
                    names@.len() == i,
                    forall|j: int| 0 <= j < i ==> names@[j]@ == lowercased(parts@[j]@),
                decreases parts.len() - i,
            {
                names.push(to_lowercase(parts[i].as_str()));
                i = i + 1;
            }
            assert(part_texts(names@) =~= part_texts(parts@).map_values(
                |p: Seq<char>| lowercased(p),
            ));
            return Self::from_names(&names);
        }
        KeyCombo { key: Key::Unknown, mods: Modifiers::default() }
    }

    /// The combination of a key event; other events have none.
    pub fn from_input_event(event: &InputEvent) -> (combo: Option<Self>)
        ensures
            combo == match *event {
                InputEvent::Key { key, modifiers } => Some(KeyCombo { key, mods: modifiers }),
                _ => None,
            },
    {
        match event {
            InputEvent::Key { key, modifiers } => Some(KeyCombo { key: *key, mods: *modifiers }),
            _ => None,
        }
    }
}

/// A combination and the action bound to it.
#[derive(Clone, Copy, Debug, PartialEq, Eq, Structural)]
pub struct Binding {
    pub combo: KeyCombo,
    pub action: EditorAction,
}

/// The action that `table` binds to `combo`: that of the last binding of
/// the combination.
pub open spec fn bound(table: Seq<Binding>, combo: KeyCombo) -> Option<EditorAction>
    decreases table.len(),
{
    if table.len() == 0 {
        None
    } else if table.last().combo == combo {
        Some(table.last().action)
    } else {
        bound(table.drop_last(), combo)
    }
}

fn lookup(table: &Vec<Binding>, combo: KeyCombo) -> (action: Option<EditorAction>)
    ensures
        action == bound(table@, combo),
{
    let mut i: usize = table.len();
    assert(table@.subrange(0, i as int) =~= table@);
    while i > 0
        invariant
            i <= table.len(),
            bound(table@, combo) == bound(table@.subrange(0, i as int), combo),
        decreases i,
    {
        let ghost front = table@.subrange(0, i as int);
        assert(front.last() == table@[i - 1]);
        assert(front.drop_last() =~= table@.subrange(0, i - 1));
        i = i - 1;
        if table[i].combo == combo {
            return Some(table[i].action);
        }
    }
    None
}

/// The bindings of the three modes; a later binding of a combination
/// replaces an earlier one.
pub struct Keymap {
    pub normal: Vec<Binding>,
    pub insert: Vec<Binding>,
    pub command: Vec<Binding>,
}

impl Keymap {
    /// The bindings of `mode`.
    pub open spec fn table(&self, mode: EditorMode) -> Seq<Binding> {
        match mode {
            EditorMode::Normal => self.normal@,
            EditorMode::Insert => self.insert@,
            EditorMode::Command => self.command@,
        }
    }

    /// What `resolve` returns.
    pub open spec fn resolved(&self, input: InputEvent, mode: EditorMode) -> Option<EditorAction> {
        match input {
            InputEvent::Key { key, modifiers } => match bound(
                self.table(mode),
                KeyCombo { key, mods: modifiers },
            ) {
                Some(action) => Some(action),
                None => match key {
                    Key::Char(c) => if mode == EditorMode::Insert && !modifiers.ctrl
                        && !modifiers.alt {
                        Some(EditorAction::InsertChar(c))
                    } else {
                        None
                    },
                    _ => None,
                },
            },
            _ => None,
        }
    }

    /// A keymap without bindings.
    pub fn new() -> (k: Self)
        ensures
            k.normal@.len() == 0,
            k.insert@.len() == 0,
            k.command@.len() == 0,
    {
        Self { normal: Vec::new(), insert: Vec::new(), command: Vec::new() }
    }

    /// The action of `input` in `mode`: the one bound to its key
    /// combination; else, in insert mode, the insertion of a character key
    /// pressed without Ctrl or Alt.
    pub fn resolve(&self, input: InputEvent, mode: &EditorMode) -> (action: Option<EditorAction>)
        ensures
            action == self.resolved(input, *mode),
    {
        match input {
            InputEvent::Key { key, modifiers } => {
                let table = match mode {
                    EditorMode::Normal => &self.normal,
                    EditorMode::Insert => &self.insert,
                    EditorMode::Command => &self.command,
                };
                match lookup(table, KeyCombo { key, mods: modifiers }) {
                    Some(action) => Some(action),
                    None => match key {
                        Key::Char(c) => {
                            let inserting = match mode {
                                EditorMode::Insert => true,
                                _ => false,
                            };
                            if inserting && !modifiers.ctrl && !modifiers.alt {
                                Some(EditorAction::InsertChar(c))
                            } else {
                                None
                            }
                        },
                        _ => None,
                    },
                }
            },
            _ => None,
        }
    }

    /// A builder for the bindings of normal mode.
    pub fn normal(&mut self) -> (b: KeymapBuilder<'_>)
        ensures
            *b.map == old(self).normal,
            final(self).normal == *final(b.map),
            final(self).insert == old(self).insert,
            final(self).command == old(self).command,
    {
        KeymapBuilder { map: &mut self.normal }
    }

    /// A builder for the bindings of insert mode.
    pub fn insert(&mut self) -> (b: KeymapBuilder<'_>)
        ensures
            *b.map == old(self).insert,
            final(self).insert == *final(b.map),
            final(self).normal == old(self).normal,
            final(self).command == old(self).command,
    {
        KeymapBuilder { map: &mut self.insert }
    }

    /// A builder for the bindings of command mode.
    pub fn command(&mut self) -> (b: KeymapBuilder<'_>)
        ensures
            *b.map == old(self).command,
            final(self).command == *final(b.map),
            final(self).normal == old(self).normal,
            final(self).insert == old(self).insert,
    {
        KeymapBuilder { map: &mut self.command }
    }
}

/// Adds bindings to the table of one mode.
pub struct KeymapBuilder<'a> {
    pub map: &'a mut Vec<Binding>,
}

impl<'a> KeymapBuilder<'a> {
    /// Binds the combination written `key` to `action`.
    pub fn map(self, key: &str, action: EditorAction) -> (b: Self)
        ensures
            b.map@ == old(self.map)@.push(Binding { combo: combo_of(key@), action }),
            *final(b.map) == *final(self.map),
    {
        let combo = KeyCombo::from_str(key);
        self.map.push(Binding { combo, action });
        self
    }
}

} // verus!
