use oxidy::highlighter::find_color;
use oxidy::plugins::config::{Config, KeyBinding, NamedTheme};
use oxidy::plugins::options::Options;
use oxidy::plugins::statusbar::{StatusBarConfig, StatusComponent};
use oxidy::plugins::theme::{hex_color, parse_hex, Theme};
use oxidy::types::{CellStyle, Color, RenderCell};

fn empty_theme() -> Theme {
    let mut t = Theme::builtin();
    t.Background = None;
    t.Foreground = None;
    t.Comment = None;
    t.Namespace = None;
    t.Type = None;
    t.Class = None;
    t.Struct = None;
    t.Enum = None;
    t.Interface = None;
    t.TypeParameter = None;
    t.Variable = None;
    t.Parameter = None;
    t.Property = None;
    t.EnumMember = None;
    t.Function = None;
    t.Method = None;
    t.Macro = None;
    t.Event = None;
    t.Keyword = None;
    t.Modifier = None;
    t.Operator = None;
    t.String = None;
    t.Number = None;
    t.Regexp = None;
    t
}

fn rgb(r: u8, g: u8, b: u8) -> Option<Color> {
    Some(Color::Rgb { r, g, b })
}

#[test]
fn parse_hex_reads_three_bytes() {
    assert_eq!(parse_hex("#1a2B3c"), Some((0x1a, 0x2b, 0x3c)));
    assert_eq!(parse_hex("000000"), Some((0, 0, 0)));
    assert_eq!(parse_hex("##ffFFff"), Some((255, 255, 255)));
    assert_eq!(parse_hex("#0102039"), Some((1, 2, 3)));
    assert_eq!(parse_hex("#+f0000"), Some((15, 0, 0)));
}

#[test]
fn parse_hex_rejects_what_is_no_colour() {
    assert_eq!(parse_hex(""), None);
    assert_eq!(parse_hex("#"), None);
    assert_eq!(parse_hex("#12345"), None);
    assert_eq!(parse_hex("#12345g"), None);
    assert_eq!(parse_hex("#-10000"), None);
    assert_eq!(parse_hex("#1+0000"), None);
    assert_eq!(parse_hex("#éé0000"), None);
}

#[test]
fn hex_color_counts_bad_pairs_as_zero() {
    assert_eq!(hex_color("#1a2b3c"), rgb(0x1a, 0x2b, 0x3c));
    assert_eq!(hex_color("#zz2b3c"), rgb(0, 0x2b, 0x3c));
    assert_eq!(hex_color("#1a2bxx"), rgb(0x1a, 0x2b, 0));
    assert_eq!(hex_color("#12345"), None);
    assert_eq!(hex_color(""), None);
}

#[test]
fn the_default_theme() {
    let t = Theme::builtin();
    assert_eq!(t.Background.as_deref(), Some("#161617"));
    assert_eq!(t.Foreground.as_deref(), Some("#c9c7cd"));
    assert_eq!(t.Keyword.as_deref(), Some("#aca1cf"));
    assert_eq!(t.Regexp.as_deref(), Some("#e29eca"));
    let again = empty_theme().default();
    assert_eq!(again.Function.as_deref(), Some("#92a2d5"));
    assert_eq!(again.TypeParameter.as_deref(), Some("#9f9ca6"));
}

#[test]
fn to_map_names_the_colours_that_are_set() {
    let map = Theme::builtin().to_map();
    assert_eq!(map.len(), 24);
    assert_eq!(map[0].name, "background");
    assert_eq!(map[9].name, "typeParameter");
    assert_eq!(map[13].name, "enumMember");
    assert_eq!(map[23].name, "regexp");
    assert_eq!(find_color(&map, "background"), rgb(0x16, 0x16, 0x17));
    assert_eq!(find_color(&map, "keyword"), rgb(0xac, 0xa1, 0xcf));
    assert_eq!(find_color(&map, "string"), rgb(0x90, 0xb9, 0x9f));
    assert_eq!(find_color(&map, "Keyword"), None);

    let mut sparse = empty_theme();
    sparse.Comment = Some("#010203".to_string());
    sparse.Number = Some("bad".to_string());
    sparse.String = Some("#zz0000".to_string());
    let map = sparse.to_map();
    assert_eq!(map.len(), 2);
    assert_eq!(find_color(&map, "comment"), rgb(1, 2, 3));
    assert_eq!(find_color(&map, "string"), rgb(0, 0, 0));
    assert_eq!(find_color(&map, "number"), None);
    assert!(empty_theme().to_map().is_empty());
}

#[test]
fn theme_merge_prefers_its_own_colours() {
    let mut own = empty_theme();
    own.Keyword = Some("#111111".to_string());
    let merged = own.merge(&Theme::builtin());
    assert_eq!(merged.Keyword.as_deref(), Some("#111111"));
    assert_eq!(merged.Comment.as_deref(), Some("#8b8693"));
    let none = empty_theme().merge(&empty_theme());
    assert!(none.to_map().is_empty());
    assert_eq!(own.duplicate().Keyword.as_deref(), Some("#111111"));
}

#[test]
fn options_merge_prefers_its_own_values() {
    let own = Options { relative_numbers: Some(true), natural_scroll: None, tab_size: None };
    let base = Options { relative_numbers: Some(false), natural_scroll: Some(true), tab_size: None };
    assert_eq!(
        own.merge(&base),
        Options { relative_numbers: Some(true), natural_scroll: Some(true), tab_size: None }
    );
    assert_eq!(base.merge(&own), base);
}

#[test]
fn the_default_configuration() {
    let c = Config::default();
    assert_eq!(
        c.opt,
        Options { relative_numbers: Some(false), natural_scroll: Some(false), tab_size: Some(2) }
    );
    assert_eq!(c.theme.as_deref(), Some(""));
    assert!(c.themes.is_empty() && c.lsps.is_empty() && c.keymap.is_empty());
    let bar = c.statusbar.unwrap();
    assert_eq!(bar.components.len(), 4);
    assert!(matches!(bar.components[2], StatusComponent::Spacer));
    match &bar.components[0] {
        StatusComponent::Group(g) => {
            assert!(matches!(&g[0], StatusComponent::Text(t) if t == "Oxidy"))
        }
        _ => panic!("expected a group"),
    }
    assert_eq!(StatusBarConfig::default().components.len(), 4);
}

#[test]
fn config_merge_completes_options_and_theme_name() {
    let mut own = Config::default();
    own.opt = Options { relative_numbers: None, natural_scroll: Some(true), tab_size: None };
    own.theme = None;
    own.keymap.push(KeyBinding { keys: "q".to_string(), action: "quit".to_string() });
    let mut base = Config::default();
    base.theme = Some("dark".to_string());
    let merged = own.merge(&base);
    assert_eq!(
        merged.opt,
        Options { relative_numbers: Some(false), natural_scroll: Some(true), tab_size: Some(2) }
    );
    assert_eq!(merged.theme.as_deref(), Some("dark"));
    assert_eq!(merged.keymap.len(), 1);

    let mut named = Config::default();
    named.theme = Some("light".to_string());
    assert_eq!(named.merge(&base).theme.as_deref(), Some("light"));
    let mut nameless = Config::default();
    nameless.theme = None;
    let mut also = Config::default();
    also.theme = None;
    assert_eq!(nameless.merge(&also).theme, None);
}

#[test]
fn current_theme_is_the_named_one_or_the_default() {
    let mut c = Config::default();
    assert_eq!(c.current_theme().Keyword.as_deref(), Some("#aca1cf"));
    let mut mine = empty_theme();
    mine.Foreground = Some("#010203".to_string());
    c.themes.push(NamedTheme { name: "mine".to_string(), theme: mine });
    let mut second = empty_theme();
    second.Foreground = Some("#040506".to_string());
    c.themes.push(NamedTheme { name: "mine".to_string(), theme: second });
    c.theme = Some("mine".to_string());
    assert_eq!(c.current_theme().Foreground.as_deref(), Some("#010203"));
    assert_eq!(c.current_theme().Keyword, None);
    c.theme = Some("other".to_string());
    assert_eq!(c.current_theme().Foreground.as_deref(), Some("#c9c7cd"));
    c.theme = None;
    assert_eq!(c.current_theme().Background.as_deref(), Some("#161617"));
}

#[test]
fn render_cells_take_the_colours_of_the_theme() {
    let c = Config::default();
    let plain = CellStyle { foreground: rgb(0xc9, 0xc7, 0xcd), background: rgb(0x16, 0x16, 0x17) };
    assert_eq!(RenderCell::default_style(&c), plain);
    assert_eq!(RenderCell::space(&c), RenderCell { ch: ' ', style: plain, transparent: false });
    assert_eq!(RenderCell::tilde(&c), RenderCell { ch: '~', style: plain, transparent: false });
    let none = CellStyle { foreground: None, background: None };
    assert_eq!(RenderCell::blank(), RenderCell { ch: ' ', style: none, transparent: true });
    assert_eq!(
        RenderCell::from_grapheme("éx", plain),
        RenderCell { ch: 'é', style: plain, transparent: false }
    );
    assert_eq!(RenderCell::from_grapheme("", none).ch, ' ');

    let mut themed = Config::default();
    let mut mine = empty_theme();
    mine.Foreground = Some("#010203".to_string());
    themed.themes.push(NamedTheme { name: "mine".to_string(), theme: mine });
    themed.theme = Some("mine".to_string());
    assert_eq!(
        RenderCell::default_style(&themed),
        CellStyle { foreground: rgb(1, 2, 3), background: None }
    );
}
