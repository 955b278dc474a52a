use ship::tui::widgets::legend::keymap_label;
use ship::image::local::LocalImage;
use ship::image::remote::RemoteImage;
use ship::image::tags::TagSet;
use ship::image::Image;
use ship::project::Project;
use ship::store::Store;
use ship::tui::actions::Action;
use ship::tui::config::Config;
use ship::tui::state::{AppState, Focus, PopupVariant};
use ship::tui::table::TableState;
use ship::tui::widgets::focusable::{focus_bg, focus_block, focus_fg, focus_list, focus_table, Color, Style};
use ship::tui::widgets::footer::{spinner_symbol, Footer};
use ship::tui::widgets::image_list::{check_span, ImageList, ImageListRow};
use ship::tui::widgets::legend::Legend;
use ship::tui::widgets::popup::{popup_area, Popup};
use ship::tui::widgets::project_list::ProjectList;
use ship::tui::widgets::span::{Rect, Span};

fn tags(ts: &[&str]) -> TagSet {
    TagSet::from_vec(ts.iter().map(|t| t.to_string()).collect())
}

fn local(id: u8, digest: Option<u8>, ts: &[&str]) -> LocalImage {
    LocalImage {
        containers: 0,
        digest: digest.map(|d| [d; 32]),
        id: [id; 32],
        tags: tags(ts),
        created_at: String::new(),
        created_since: String::new(),
        repository: "myrepo/myapp".to_string(),
        shared_size: String::new(),
        size: String::new(),
        unique_size: String::new(),
    }
}

fn texts(spans: &[Span]) -> Vec<String> {
    spans.iter().map(|s| s.content.clone()).collect()
}

fn color(s: &Span) -> Option<Color> {
    s.style.fg
}

fn state() -> AppState {
    let mut p = Project::new("myapp");
    p.images = vec![Image::Local(local(1, Some(0x0a), &["v1", "latest"])), Image::Remote(RemoteImage { digest: [0x0b; 32], tags: tags(&["r"]) }), Image::Local(local(2, None, &[]))];
    let q = Project::new("other");
    let mut config = Config::default();
    config.project_registries.insert("myapp".to_string(), "reg.io/team".to_string());
    let mut store = Store::empty();
    store.project_remote_images.insert("myapp".to_string(), vec![RemoteImage { digest: [0x0b; 32], tags: tags(&["r"]) }]);
    AppState {
        projects: vec![p, q],
        config,
        store,
        loading: None,
        spinner_frame: 0,
        exit: false,
        project_table_state: TableState::new().with_selected(0),
        image_table_state: TableState::new().with_selected(0),
        popup: None,
        focus: Focus::Projects,
    }
}

#[test]
fn image_rows_show_ids_digests_and_tags() {
    let row = ImageListRow::from_local(&local(1, None, &["b", "a"]));
    let spans = row.spans();
    assert_eq!(texts(&spans), vec!["01".repeat(32), "-".to_string(), "a, b".to_string()]);
    assert_eq!(color(&spans[0]), Some(Color::LightGreen));
    assert_eq!(color(&spans[1]), Some(Color::LightYellow));
    assert_eq!(color(&spans[2]), None);
    let remote = ImageListRow::from_remote(&RemoteImage { digest: [0xff; 32], tags: TagSet::new() });
    assert_eq!(texts(&remote.spans()), vec!["-".to_string(), "ff".repeat(32), String::new()]);
    let from_image = ImageListRow::from_image(&Image::Remote(RemoteImage { digest: [0xff; 32], tags: TagSet::new() }));
    assert_eq!(from_image.id, None);
}

#[test]
fn check_marks() {
    let yes = check_span(true);
    assert_eq!(yes.content, "\u{2713}");
    assert_eq!(yes.style.fg, Some(Color::LightGreen));
    let no = check_span(false);
    assert_eq!(no.content, "\u{2a2f}");
    assert_eq!(no.style.fg, Some(Color::Red));
}

#[test]
fn image_list_lines_mark_local_and_remote_images() {
    let s = state();
    let lines = ImageList {}.lines(&s);
    assert_eq!(lines.len(), 3);
    assert_eq!(texts(&lines[0])[..2].to_vec(), vec!["\u{2713}".to_string(), "\u{2a2f}".to_string()]);
    assert_eq!(texts(&lines[1])[..2].to_vec(), vec!["\u{2a2f}".to_string(), "\u{2713}".to_string()]);
    assert_eq!(texts(&lines[2])[..2].to_vec(), vec!["\u{2713}".to_string(), "\u{2a2f}".to_string()]);
    assert_eq!(texts(&lines[0])[4], "latest, v1");
    assert_eq!(lines[0].len(), 5);
}

#[test]
fn project_list_lines_show_counts_and_registries() {
    let s = state();
    let lines = ProjectList {}.lines(&s);
    assert_eq!(lines.len(), 2);
    assert_eq!(texts(&lines[0]), vec!["myapp".to_string(), "3 images ".to_string(), "reg.io/team".to_string()]);
    assert_eq!(color(&lines[0][1]), Some(Color::LightGreen));
    assert_eq!(color(&lines[0][2]), Some(Color::Yellow));
    assert_eq!(texts(&lines[1]), vec!["other".to_string(), "0 images ".to_string()]);
}

#[test]
fn legend_lists_actions_with_their_keys() {
    let s = state();
    let legend = Legend::new(vec![Action::SelectUp, Action::Quit, Action::Noop]);
    let maps = legend.keymaps(&s.config);
    assert_eq!(maps.len(), 3);
    assert_eq!(maps[0].len(), 2);
    assert_eq!(maps[2].len(), 0);
    let labels = vec![vec!["k".to_string(), "Up".to_string()], vec!["Ctrl+c".to_string(), "q".to_string()], vec![]];
    let spans = legend.spans(&labels);
    assert_eq!(
        texts(&spans),
        vec!["SelectUp", ": ", "k, Up", " | ", "Quit", ": ", "Ctrl+c, q", " | ", "Noop", ": ", ""]
            .into_iter()
            .map(|t| t.to_string())
            .collect::<Vec<_>>()
    );
    assert_eq!(color(&spans[0]), Some(Color::Yellow));
    assert_eq!(color(&spans[3]), Some(Color::Blue));
    assert_eq!(color(&spans[2]), Some(Color::White));
}

#[test]
fn footer_shows_what_loads() {
    let mut s = state();
    let footer = Footer {};
    assert!(footer.loading_spans(&s).is_none());
    s.loading = Some("Fetching images...".to_string());
    s.spinner_frame = 3;
    let spans = footer.loading_spans(&s).unwrap();
    assert_eq!(texts(&spans), vec!["\u{2838}".to_string(), " ".to_string(), "Fetching images...".to_string()]);
    assert_eq!(color(&spans[0]), Some(Color::Green));
    assert_eq!(footer.legend().actions, vec![Action::SelectUp, Action::SelectDown, Action::Quit]);
    let symbols: Vec<String> = (0..10).map(spinner_symbol).collect();
    assert_eq!(symbols.concat(), "\u{280b}\u{2819}\u{2839}\u{2838}\u{283c}\u{2834}\u{2826}\u{2827}\u{2807}\u{280f}");
}

#[test]
fn popups_and_their_area() {
    let info = Popup::for_variant(&PopupVariant::Info("done".to_string()));
    assert_eq!(info.title, "Info");
    assert_eq!(info.content, "done");
    assert_eq!(info.style, Style { fg: None, bg: None });
    let err = Popup::for_variant(&PopupVariant::Error("bad".to_string()));
    assert_eq!(err.title, "Error");
    assert_eq!(err.style.fg, Some(Color::Red));
    let area = popup_area(Rect { x: 0, y: 0, width: 100, height: 31 });
    assert_eq!(area, Rect { x: 25, y: 10, width: 50, height: 10 });
    let tiny = popup_area(Rect { x: 0, y: 0, width: 1, height: 2 });
    assert_eq!(tiny, Rect { x: 0, y: 0, width: 0, height: 0 });
}

#[test]
fn focus_styles() {
    assert_eq!(focus_bg(true), Style { fg: None, bg: Some(Color::Blue) });
    assert_eq!(focus_bg(false), Style { fg: None, bg: None });
    assert_eq!(focus_fg(true), Style { fg: Some(Color::Green), bg: None });
    assert_eq!(focus_fg(false), Style { fg: None, bg: None });
    assert_eq!(focus_block(true).border_style.fg, Some(Color::Green));
    assert_eq!(focus_list(true).highlight_style.bg, Some(Color::Blue));
    assert_eq!(focus_table(false).highlight_style, Style { fg: None, bg: None });
}

#[test]
fn key_labels_join_modifiers_and_key() {
    assert_eq!(keymap_label(Some("Control".to_string()), "c".to_string()), "Control+c");
    assert_eq!(keymap_label(None, "Up".to_string()), "Up");
}
