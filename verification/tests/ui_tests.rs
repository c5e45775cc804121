use oxidy::command::{run, Command as NamedCommand, CommandFn, CommandManager};
use oxidy::log_manager::LogManager;
use oxidy::renderer::Composite;
use oxidy::types::{
    CellStyle, Color, Cursor, EditorEvent, EditorMode, Grid, RenderBuffer, RenderCell, RenderLine,
};
use oxidy::ui::card::{Card, CardType};
use oxidy::ui::command::Command;
use oxidy::ui::status_bar::{format_two_digits, StatusBar};
use oxidy::ui::ui_element::UiElement;
use oxidy::ui::ui_manager::{UiKind, UiManager, UiWidget};

fn cell(ch: char) -> RenderCell {
    RenderCell { ch, style: CellStyle { foreground: None, background: None }, transparent: false }
}

fn clear() -> RenderCell {
    RenderCell::blank()
}

fn grid(rows: &[&str]) -> Grid<RenderCell> {
    Grid {
        cells: rows
            .iter()
            .map(|r| r.chars().map(|c| if c == '.' { clear() } else { cell(c) }).collect())
            .collect(),
    }
}

fn text(g: &Grid<RenderCell>) -> Vec<String> {
    g.cells.iter().map(|r| r.iter().map(|c| c.ch).collect()).collect()
}

fn args(list: &[&str]) -> Vec<String> {
    list.iter().map(|s| s.to_string()).collect()
}

#[test]
fn a_new_grid_is_filled() {
    let g = Grid::new(2, 3, 'x');
    assert_eq!(g.cells, vec![vec!['x'; 3]; 2]);
    assert_eq!((g.rows(), g.cols()), (2, 3));
    assert_eq!(g.get(1), Some(&vec!['x'; 3]));
    assert_eq!(g.get(2), None);
    let empty: Grid<u8> = Grid::new(0, 5, 0);
    assert_eq!((empty.rows(), empty.cols()), (0, 0));
    let flat: Grid<u8> = Grid::new(2, 0, 0);
    assert_eq!((flat.rows(), flat.cols()), (2, 0));
}

#[test]
fn blit_copies_and_cuts_off() {
    let mut g = Grid::new(3, 4, '.');
    let src = Grid { cells: vec![vec!['a', 'b', 'c'], vec!['d', 'e', 'f']] };
    g.blit(&src, 2, 1);
    assert_eq!(
        g.cells,
        vec![vec!['.', '.', '.', '.'], vec!['.', '.', 'a', 'b'], vec!['.', '.', 'd', 'e']]
    );
    g.blit(&src, 0, 2);
    assert_eq!(g.cells[2], vec!['a', 'b', 'c', 'e']);
    let before = g.clone();
    g.blit(&src, 4, 0);
    g.blit(&src, 0, 3);
    g.blit(&src, usize::MAX, usize::MAX);
    g.blit(&Grid::new(0, 0, 'z'), 0, 0);
    assert_eq!(g, before);
    let mut ragged = Grid { cells: vec![vec!['.'; 3], vec!['.'], vec![]] };
    ragged.blit(&Grid { cells: vec![vec!['a'], vec!['b', 'c', 'd'], vec!['e']] }, 0, 0);
    assert_eq!(ragged.cells, vec![vec!['a', '.', '.'], vec!['b'], vec![]]);
}

#[test]
fn merge_puts_the_text_right_of_the_gutter() {
    let merged = Composite::merge(&grid(&["1 ", "2 ", "3 "]), &grid(&["ab", "cd"]));
    assert_eq!(text(&merged), vec!["1 ab", "2 cd", "3 "]);
    assert!(Composite::merge(&grid(&[]), &grid(&["ab"])).cells.is_empty());
}

#[test]
fn overlay_keeps_what_shows_through() {
    let laid = Composite::overlay(&grid(&["abcd", "efgh"]), &grid(&[".X", "Y...Z", "Q"]));
    assert_eq!(text(&laid), vec!["aXcd", "Yfgh"]);
    assert!(!laid.cells[0][1].transparent);
}

#[test]
fn cards_are_cut_into_lines() {
    let mut card = Card::new("héllo wörld".to_string());
    assert!(card.card_type == CardType::INFO);
    assert_eq!(card.get_lines(4), vec!["héll", "o wö", "rld"]);
    assert_eq!(card.get_lines(11), vec!["héllo wörld"]);
    assert_eq!(card.get_lines(50), vec!["héllo wörld"]);
    assert!(card.get_lines(0).is_empty());
    card.update("abcd".to_string());
    assert_eq!(card.get_lines(2), vec!["ab", "cd"]);
    card.update(String::new());
    assert!(card.get_lines(3).is_empty());
}

#[test]
fn card_styles() {
    let back = Some(Color::Rgb { r: 22, g: 22, b: 23 });
    assert_eq!(
        CardType::INFO.style(),
        CellStyle { foreground: Some(Color::Rgb { r: 201, g: 199, b: 205 }), background: back }
    );
    assert_eq!(
        CardType::WARNING.style(),
        CellStyle { foreground: Some(Color::Yellow), background: back }
    );
    assert_eq!(CardType::ERROR.style(), CellStyle { foreground: Some(Color::Red), background: back });
}

#[test]
fn the_command_line_is_edited_at_its_cursor() {
    let mut c = Command::new();
    assert_eq!((c.command.as_str(), c.shown, c.cursor), ("", false, 0));
    assert_eq!(c.get_position(), 6);
    for ch in "lsé".chars() {
        c.insert_char(ch);
    }
    assert_eq!((c.command.as_str(), c.cursor), ("lsé", 3));
    assert_eq!(c.get_position(), 9);
    c.move_cursor(-2);
    c.insert_char('x');
    assert_eq!((c.command.as_str(), c.cursor), ("lxsé", 2));
    c.delete_char();
    assert_eq!((c.command.as_str(), c.cursor), ("lsé", 1));
    c.move_cursor(-5);
    assert_eq!(c.cursor, 0);
    c.delete_char();
    assert_eq!((c.command.as_str(), c.cursor), ("lsé", 0));
    c.move_cursor(99);
    assert_eq!(c.cursor, 3);
    c.delete_char();
    assert_eq!((c.command.as_str(), c.cursor), ("ls", 2));
    c.move_cursor(isize::MIN);
    assert_eq!(c.cursor, 0);
    c.move_cursor(isize::MAX);
    assert_eq!(c.cursor, 2);
    c.update_command("q".to_string());
    assert_eq!(c.command, "q");
    c.cursor = 5;
    c.insert_char('!');
    c.delete_char();
    assert_eq!((c.command.as_str(), c.cursor), ("q", 5));
}

#[test]
fn the_command_line_is_drawn_into_row_one() {
    let mut c = Command::new();
    c.update_command("wq".to_string());
    let mut frame = grid(&["aaaaaaaaaa", "bbbbbbbbbb", "cccccccccc"]);
    c.draw(&mut frame);
    assert_eq!(text(&frame), vec!["aaaaaaaaaa", "bbbbbbbbbb", "cccccccccc"]);
    c.shown = true;
    c.render(&mut frame);
    assert_eq!(text(&frame), vec!["aaaaaaaaaa", "    \u{f054} wq  ", "cccccccccc"]);
    let style = CellStyle {
        foreground: Some(Color::Rgb { r: 201, g: 199, b: 205 }),
        background: Some(Color::Rgb { r: 22, g: 22, b: 23 }),
    };
    assert_eq!(frame.cells[1][6], RenderCell { ch: 'w', style, transparent: false });
    assert_eq!(frame.cells[1][0].style.foreground, None);
    assert_eq!(frame.cells[1][0].style.background, style.background);

    let mut narrow = grid(&["aaa", "bbbbbbb"]);
    c.draw(&mut narrow);
    assert_eq!(text(&narrow), vec!["aaa", "    \u{f054} w"]);
    let mut low = grid(&["aaa"]);
    c.draw(&mut low);
    assert_eq!(text(&low), vec!["aaa"]);
}

#[test]
fn numbers_are_written_with_two_digits_at_least() {
    assert_eq!(format_two_digits(0), "00");
    assert_eq!(format_two_digits(7), "07");
    assert_eq!(format_two_digits(10), "10");
    assert_eq!(format_two_digits(123), "123");
    assert_eq!(format_two_digits(1000), "1000");
    assert_eq!(format_two_digits(usize::MAX), usize::MAX.to_string());
}

#[test]
fn the_status_bar_and_its_items() {
    let mut bar = StatusBar::new();
    assert_eq!((bar.name.as_str(), bar.file.as_str()), ("Oxidy", "file.rs"));
    assert_eq!(bar.pos, Cursor { row: 0, col: 0 });
    assert!(bar.mode == EditorMode::Normal);
    assert_eq!(bar.state(), "01:01");
    bar.pos = Cursor { row: 41, col: 6 };
    bar.mode = EditorMode::Insert;
    assert_eq!(bar.state(), "07:42 INS");
    bar.mode = EditorMode::Command;
    assert_eq!(bar.state(), "07:42 CMD");

    let item = bar.item("main.rs");
    assert_eq!(item.len(), 3);
    assert_eq!(item[0].text, "\u{e0b6}");
    assert_eq!(item[1].text, " main.rs ");
    assert_eq!(item[2].text, "\u{e0b4}");
    assert_eq!(item[1].style.background, Some(Color::Rgb { r: 68, g: 68, b: 72 }));
    assert_eq!(item[1].style.foreground, Some(Color::Rgb { r: 201, g: 199, b: 205 }));
    assert_eq!(item[0].style.foreground, Some(Color::Rgb { r: 68, g: 68, b: 72 }));
    assert_eq!(item[0].style.background, Some(Color::Rgb { r: 22, g: 22, b: 23 }));
    assert_eq!(bar.spacer(3).text, "   ");
    assert_eq!(bar.spacer(0).text, "");
}

#[test]
fn the_manager_finds_elements_by_kind() {
    let mut ui = UiManager::new();
    assert_eq!(ui.top_offset(), 1);
    assert!(ui.get(UiKind::Command).is_none());
    assert!(ui.get_mut(UiKind::Command).is_none());
    ui.add(UiWidget::StatusBar(StatusBar::new()));
    ui.add(UiWidget::Command(Command::new()));
    ui.add(UiWidget::Card(Card::new("first".to_string())));
    ui.add(UiWidget::Card(Card::new("second".to_string())));
    assert!(matches!(ui.get(UiKind::StatusBar), Some(UiWidget::StatusBar(_))));
    assert!(matches!(ui.get(UiKind::Card), Some(UiWidget::Card(c)) if c.description == "first"));
    if let Some(UiWidget::Command(c)) = ui.get_mut(UiKind::Command) {
        c.shown = true;
        c.update_command("w".to_string());
    }
    let mut frame = grid(&["aaaaaaaa", "bbbbbbbb"]);
    ui.render(&mut frame);
    assert_eq!(text(&frame), vec!["\u{e0b6} Oxidy ", "    \u{f054} w "]);
}

#[test]
fn notifications_are_shown_for_a_while() {
    let mut logs = LogManager::new();
    logs.push_notification_at("a".to_string(), 100, 1000);
    logs.push_notification_at("b".to_string(), 10, 1000);
    logs.push_notification_at("c".to_string(), 0, 1000);
    logs.push_notification_at("d".to_string(), 50, 1040);
    assert_eq!(logs.drain_notifications_at(1005), vec!["a", "b", "d"]);
    assert_eq!(logs.notifications.len(), 3);
    assert_eq!(logs.drain_notifications_at(1010), vec!["a", "d"]);
    assert_eq!(logs.drain_notifications_at(1089), vec!["a", "d"]);
    assert_eq!(logs.drain_notifications_at(1090), vec!["a"]);
    assert_eq!(logs.drain_notifications_at(900), vec!["a"]);
    assert!(logs.drain_notifications_at(1100).is_empty());
    assert!(logs.notifications.is_empty());
}

#[test]
fn notifications_by_the_clock() {
    let mut logs = LogManager::new();
    logs.push_notification("long".to_string(), 3_600_000);
    logs.push_notification("none".to_string(), 0);
    assert_eq!(logs.notifications.len(), 2);
    assert_eq!(logs.drain_notifications(), vec!["long"]);
    assert_eq!(logs.notifications.len(), 1);
}

#[test]
fn persistent_messages_are_drained_once() {
    let mut logs = LogManager::new();
    logs.push_persistent("one".to_string());
    logs.push_persistent("two".to_string());
    assert_eq!(logs.drain_persistent(), vec!["one", "two"]);
    assert!(logs.drain_persistent().is_empty());
}

#[test]
fn commands_are_run_by_name() {
    let mut commands = CommandManager::new();
    commands.register_commands();
    assert!(commands.commands.is_empty());
    let quit = NamedCommand {
        name: "q".to_string(),
        description: "Quit.".to_string(),
        execute: CommandFn::Quit,
    };
    let lsp = NamedCommand {
        name: "lsp".to_string(),
        description: "Talk to the language server.".to_string(),
        execute: CommandFn::Lsp,
    };
    commands.register(quit);
    commands.register(lsp);
    assert_eq!(commands.execute("q", args(&[])), EditorEvent::QuitRequested);
    assert_eq!(commands.execute("q", args(&["now"])), EditorEvent::QuitRequested);
    assert_eq!(commands.execute("w", args(&[])), EditorEvent::Idle);
    assert_eq!(
        commands.execute("lsp", args(&["start", "rust-analyzer"])),
        EditorEvent::StartLsp("rust-analyzer".to_string())
    );
    assert_eq!(
        commands.execute("lsp", args(&["start", "my", "server"])),
        EditorEvent::StartLsp("my server".to_string())
    );
    assert_eq!(commands.execute("lsp", args(&["start"])), EditorEvent::StartLsp(String::new()));
    assert_eq!(commands.execute("lsp", args(&["end"])), EditorEvent::Idle);
    assert_eq!(commands.execute("lsp", args(&[])), EditorEvent::Idle);
    let again = NamedCommand {
        name: "q".to_string(),
        description: "Other.".to_string(),
        execute: CommandFn::Lsp,
    };
    commands.register(again);
    assert_eq!(commands.execute("q", args(&[])), EditorEvent::Idle);
    assert_eq!(run(CommandFn::Quit, &args(&["x"])), EditorEvent::QuitRequested);
}

#[test]
fn a_render_buffer_is_dumped_as_text() {
    let line = |s: &str| RenderLine { cells: s.chars().map(cell).collect() };
    let buffer = RenderBuffer {
        drawn: vec![line("old")],
        current: vec![line("héllo"), line(""), line("x")],
    };
    assert_eq!(buffer.dump(), "héllo\n\nx");
    let one = RenderBuffer { drawn: vec![], current: vec![line("ab")] };
    assert_eq!(one.dump(), "ab");
    let none = RenderBuffer { drawn: vec![], current: vec![] };
    assert_eq!(none.dump(), "");
}
