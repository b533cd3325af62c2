use vibi_core::approval::ApprovalQueue;
use vibi_core::editor::{greeting, icon_name, lists_entries_at, tree_order, FolderState, TreeEntry};
use vibi_core::types::{Command, CommandKind};
use vibi_core::user_commands::CommandRegistry;

fn cmd(path: &str) -> Command {
    Command::new(CommandKind::CreateFile, Some(path.to_string()), None)
}

#[test]
fn approval_queue_flow() {
    let mut q = ApprovalQueue::new();
    assert!(q.is_empty());
    assert!(q.all_resolved());
    let a = q.add(cmd("a"));
    let b = q.add(cmd("b"));
    let c = q.add(cmd("c"));
    assert_eq!((a, b, c), (0, 1, 2));
    assert!(!q.is_empty());
    assert!(!q.all_resolved());
    q.approve(c);
    q.approve(a);
    let approved: Vec<String> = q.get_approved_commands().iter().map(|c| c.path.clone().unwrap()).collect();
    assert_eq!(approved, vec!["a".to_string(), "c".to_string()]);
    q.deny(a);
    q.approve(b);
    let approved: Vec<String> = q.get_approved_commands().iter().map(|c| c.path.clone().unwrap()).collect();
    assert_eq!(approved, vec!["b".to_string(), "c".to_string()]);
    assert!(!q.all_resolved());
    q.approve(a);
    assert!(q.all_resolved());
    assert_eq!(q.get_approved_commands().len(), 3);
    q.clear();
    assert!(q.is_empty());
}

#[test]
fn folders_start_folded_and_toggle_one_at_a_time() {
    let mut f = FolderState::new();
    assert!(f.is_folder_collapsed("src"));
    assert!(!f.toggle_folder_state("src"));
    assert!(!f.is_folder_collapsed("src"));
    assert!(f.is_folder_collapsed("src/ui"));
    assert!(!f.toggle_folder_state("src/ui"));
    assert!(f.toggle_folder_state("src"));
    assert!(f.is_folder_collapsed("src"));
    assert!(!f.is_folder_collapsed("src/ui"));
}

#[test]
fn icons_by_extension() {
    assert_eq!(icon_name("main.rs"), Some("rust-programming-language-icon.png"));
    assert_eq!(icon_name("App.TSX"), Some("react-js-icon.png"));
    assert_eq!(icon_name("archive.tar.toml"), Some("yaml-icon.png"));
    assert_eq!(icon_name("notes.md"), Some("log-file-icon.png"));
    assert_eq!(icon_name("Makefile"), None);
    assert_eq!(icon_name("r"), Some("r-programming-language-icon.png"));
    assert_eq!(icon_name("photo.png"), None);
    assert_eq!(icon_name("trailing."), None);
}

#[test]
fn greetings_by_hour() {
    assert_eq!(greeting(0), "🌙 Early Night");
    assert_eq!(greeting(5), "🌄 Early Morning");
    assert_eq!(greeting(11), "☀️ Good Morning");
    assert_eq!(greeting(12), "🌤️ Good Afternoon");
    assert_eq!(greeting(18), "🌅 Early Evening");
    assert_eq!(greeting(20), "🌆 Good Evening");
    assert_eq!(greeting(23), "🌙 Good Night");
}

#[test]
fn command_suggestions() {
    let reg = CommandRegistry::new();
    assert_eq!(reg.all_commands().len(), 8);
    let names: Vec<&str> = reg.find_matches("/D").iter().map(|c| c.name).collect();
    assert_eq!(names, vec!["/delete"]);
    let names: Vec<&str> = reg.find_matches("/").iter().map(|c| c.name).collect();
    assert_eq!(names.len(), 8);
    assert!(reg.suggestions("hello").is_none());
    assert_eq!(reg.suggestions("/").unwrap().len(), 8);
    let names: Vec<&str> = reg.suggestions("/pro").unwrap().iter().map(|c| c.name).collect();
    assert_eq!(names, vec!["/projects"]);
    assert!(reg.suggestions("/zzz").is_none());
    let help = reg.find_matches("/help");
    assert_eq!(help[0].usage, "/help");
    assert_eq!(help[0].description, "Show all available commands");
}

use vibi_core::projects::{
    add_project_if_new, draft_from_form, find_line_field, project_from_form, project_from_vibecode, vibecode_text,
};
use vibi_core::tabs::OpenTabs;

#[test]
fn tabs_open_once_and_close_by_path() {
    let mut t = OpenTabs::new();
    assert_eq!(t.open_file("/p/a.rs", "a.rs"), 0);
    assert_eq!(t.open_file("/p/b.rs", "b.rs"), 1);
    assert_eq!(t.open_file("/p/a.rs", "other"), 0);
    assert_eq!(t.tabs().len(), 2);
    assert_eq!(t.new_untitled(), 2);
    assert_eq!(t.tabs()[2], ("".to_string(), "Untitled-3".to_string()));
    assert_eq!(t.position("/p/b.rs"), Some(1));
    assert!(!t.close("/p/a.rs"));
    assert_eq!(t.position("/p/a.rs"), None);
    assert_eq!(t.position("/p/b.rs"), Some(0));
    assert!(!t.close(""));
    assert!(t.close("/p/b.rs"));
}

#[test]
fn projects_need_a_name_and_a_directory() {
    assert!(project_from_form("  ", "/home/x", "").is_none());
    assert!(project_from_form("demo", " ", "").is_none());
    let p = project_from_form("  demo ", "/home/x", "https://github.com/u/demo").unwrap();
    assert_eq!(p.name, "demo");
    assert_eq!(p.directory, "demo");
    assert_eq!(p.category, "custom");
    assert_eq!(p.id, p.uuid);
    assert_eq!(p.id.len(), 36);
    assert!(p.files.is_empty());
    assert!(p.linked_chat.is_none());
    assert_eq!(p.github_link.as_deref(), Some("https://github.com/u/demo"));
    assert!(project_from_form("demo", "/x", "").unwrap().github_link.is_none());
}

#[test]
fn drafts_keep_fields_as_typed() {
    let d = draft_from_form(" n ", "d", "", "me", true, false, "");
    assert_eq!(d.name, " n ");
    assert_eq!(d.directory, "d");
    assert!(d.github_link.is_none());
    assert_eq!(d.github_user.as_deref(), Some("me"));
    assert!(d.is_private);
    assert!(!d.has_token);
    assert!(d.token.is_none());
}

#[test]
fn vibecode_file_text() {
    assert_eq!(
        vibecode_text("u-1", "demo", "2025-01-02 03:04:05"),
        "uuid=u-1\nid=u-1\nname=demo\ncreated=2025-01-02 03:04:05\n"
    );
}

#[test]
fn vibecode_is_read_back() {
    let text = vibecode_text("u-1", "demo", "2025-01-02 03:04:05");
    let p = project_from_vibecode(&text, "folder");
    assert_eq!(p.uuid, "u-1");
    assert_eq!(p.id, "u-1");
    assert_eq!(p.name, "demo");
    assert_eq!(p.directory, "folder");
    assert_eq!(p.category, "custom");
    assert!(p.files.is_empty());
    assert!(p.linked_chat.is_none());
    assert!(p.github_link.is_none());
}

#[test]
fn vibecode_fields_fall_back() {
    let p = project_from_vibecode("created=now\r\n", "folder");
    assert_eq!(p.name, "folder");
    assert_eq!(p.uuid.len(), 36);
    assert_eq!(p.id, p.uuid);
    let q = project_from_vibecode("id=7\r\nuuid=u\r\nname=x\r", "d");
    assert_eq!(q.id, "7");
    assert_eq!(q.uuid, "u");
    assert_eq!(q.name, "x\r");
}

#[test]
fn line_fields_take_the_first_matching_line() {
    assert_eq!(find_line_field("a=1\nname=one\nname=two", "name=").as_deref(), Some("one"));
    assert_eq!(find_line_field("uuid=9", "id="), None);
    assert_eq!(find_line_field("", "id="), None);
}

#[test]
fn projects_are_added_once_per_uuid() {
    let mut list = Vec::new();
    add_project_if_new(&mut list, project_from_vibecode("uuid=a\nname=first", "one"));
    add_project_if_new(&mut list, project_from_vibecode("uuid=b\nname=second", "two"));
    add_project_if_new(&mut list, project_from_vibecode("uuid=a\nname=again", "three"));
    assert_eq!(list.len(), 2);
    assert_eq!(list[0].name, "first");
    assert_eq!(list[1].name, "second");
}

#[test]
fn file_tree_lists_folders_first_then_by_name() {
    let e = |name: &str, is_dir: bool| TreeEntry { name: name.to_string(), is_dir };
    let sorted = tree_order(vec![e("b.rs", false), e("src", true), e("a.rs", false), e("assets", true), e("B.md", false)]);
    let names: Vec<(&str, bool)> = sorted.iter().map(|t| (t.name.as_str(), t.is_dir)).collect();
    assert_eq!(names, vec![("assets", true), ("src", true), ("B.md", false), ("a.rs", false), ("b.rs", false)]);
    assert!(tree_order(Vec::new()).is_empty());
    assert!(lists_entries_at(0));
    assert!(lists_entries_at(6));
    assert!(!lists_entries_at(7));
}
