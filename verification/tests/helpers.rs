use notelock::calendar::{is_authorized, CalendarPermission};
use notelock::envelope::split_dollar;
use notelock::metadata::get_metadata_path;
use notelock::templates::{
    generate_template_id, get_default_templates, replace_template_variables,
};
use notelock::trash::get_trash_metadata_path;
use notelock::utils::{
    generate_unique_filename, generate_unique_folder_name, get_daily_dir, get_notes_dir,
    get_standalone_dir, get_templates_dir, get_trash_dir, get_weekly_dir, is_valid_filename,
    is_valid_path, AppConfig,
};
use notelock::encryption::zeroize;
use notelock::wiki::{
    get_link_context, note_exists, note_name_to_filename, parse_wiki_links, scan_note_links,
};

#[test]
fn valid_filenames() {
    assert!(is_valid_filename("note.md"));
    assert!(is_valid_filename("Meeting Notes (2).md"));
    assert!(!is_valid_filename(""));
    assert!(!is_valid_filename("../secret.md"));
    assert!(!is_valid_filename("a/b.md"));
    assert!(!is_valid_filename("a\\b.md"));
    assert!(!is_valid_filename("trailing.."));
}

#[test]
fn valid_paths() {
    assert!(is_valid_path("folder/note.md"));
    assert!(is_valid_path("note.md"));
    assert!(!is_valid_path(""));
    assert!(!is_valid_path("../up"));
    assert!(!is_valid_path("a\\b"));
}

#[test]
fn directory_helpers() {
    assert_eq!(get_daily_dir("/home/u/Notes"), "/home/u/Notes/daily");
    assert_eq!(get_standalone_dir("/home/u/Notes"), "/home/u/Notes/notes");
    assert_eq!(get_weekly_dir("/home/u/Notes"), "/home/u/Notes/weekly");
    assert_eq!(get_trash_dir("/home/u/Notes"), "/home/u/Notes/.trash");
    assert_eq!(get_templates_dir("/home/u/Notes"), "/home/u/Notes/templates");
    assert_eq!(get_metadata_path("/home/u/Notes"), "/home/u/Notes/.note-metadata.json");
    assert_eq!(get_trash_metadata_path("/home/u/Notes/.trash"), "/home/u/Notes/.trash/metadata.json");
}

#[test]
fn notes_dir_selection() {
    let custom = AppConfig { notes_directory: Some("/custom".to_string()) };
    assert_eq!(get_notes_dir(&custom, true, "/default".to_string()), "/custom");
    assert_eq!(get_notes_dir(&custom, false, "/default".to_string()), "/default");
    let none = AppConfig { notes_directory: None };
    assert_eq!(get_notes_dir(&none, true, "/default".to_string()), "/default");
}

#[test]
fn unique_filenames() {
    let empty: Vec<String> = vec![];
    assert_eq!(generate_unique_filename(&empty, "note", "md"), "note.md");
    let one = vec!["note.md".to_string()];
    assert_eq!(generate_unique_filename(&one, "note", "md"), "note (1).md");
    let two = vec!["note.md".to_string(), "note (1).md".to_string()];
    assert_eq!(generate_unique_filename(&two, "note", "md"), "note (2).md");
}

#[test]
fn unique_folder_names() {
    let empty: Vec<String> = vec![];
    assert_eq!(generate_unique_folder_name(&empty, "Projects"), "Projects");
    let taken = vec!["Projects".to_string(), "Projects (1)".to_string()];
    assert_eq!(generate_unique_folder_name(&taken, "Projects"), "Projects (2)");
}

#[test]
fn note_name_slugs() {
    assert_eq!(note_name_to_filename("My Note"), "my-note.md");
    assert_eq!(note_name_to_filename("  Test Note 2  "), "test-note-2.md");
    assert_eq!(note_name_to_filename("Hello   World"), "hello---world.md");
    assert_eq!(note_name_to_filename("Plan: Q4!"), "plan-q4.md");
    assert_eq!(note_name_to_filename(""), ".md");
}

#[test]
fn template_ids() {
    assert_eq!(generate_template_id("Meeting Notes"), "meeting-notes");
    assert_eq!(generate_template_id("  My--Template!! "), "my-template");
    assert_eq!(generate_template_id("A"), "a");
    assert_eq!(generate_template_id("!!!"), "");
}

#[test]
fn template_id_is_canonical() {
    for name in ["Meeting Notes", "  My--Template!! ", "Daily Log 2", "déjà vu"] {
        let id = generate_template_id(name);
        assert_eq!(generate_template_id(&id), id, "name {:?}", name);
    }
}

#[test]
fn default_templates() {
    let templates = get_default_templates();
    assert_eq!(templates.len(), 3);
    assert_eq!(templates[0].id, "meeting-notes");
    assert_eq!(templates[1].id, "daily-log");
    assert_eq!(templates[2].id, "project-plan");
    assert!(templates.iter().all(|t| t.is_default));
    assert!(templates[1].content.contains("{{date}}"));
}

#[test]
fn template_variable_substitution() {
    let content = "# {{day_of_week}}, {{date}} at {{time}}\n{{date}} again";
    let out = replace_template_variables(content, "2024-01-05", "09:30", "Friday");
    assert_eq!(out, "# Friday, 2024-01-05 at 09:30\n2024-01-05 again");
    assert_eq!(replace_template_variables("no variables", "d", "t", "w"), "no variables");
}

#[test]
fn wiki_link_parsing() {
    assert_eq!(
        parse_wiki_links("see [[Note One]] and [[Two|two-file]] end"),
        vec!["Note One".to_string(), "two-file".to_string()]
    );
    assert_eq!(parse_wiki_links("[[a|b|c]]"), vec!["b|c".to_string()]);
    assert_eq!(parse_wiki_links("no links here"), Vec::<String>::new());
    assert_eq!(parse_wiki_links("[[]]"), Vec::<String>::new());
    assert_eq!(parse_wiki_links("[[open"), Vec::<String>::new());
    assert_eq!(parse_wiki_links("[[a[[b]]"), vec!["a[[b".to_string()]);
    assert_eq!(parse_wiki_links("[[x]]y[[z]]"), vec!["x".to_string(), "z".to_string()]);
}

#[test]
fn scanning_resolves_links() {
    let standalone = vec!["alpha.md".to_string()];
    let daily: Vec<String> = vec![];
    let links = scan_note_links("[[Alpha]] and [[Beta]]", &standalone, &daily);
    assert_eq!(links.len(), 2);
    assert_eq!(links[0].text, "Alpha");
    assert_eq!(links[0].target, "alpha.md");
    assert!(links[0].exists);
    assert_eq!(links[1].text, "Beta");
    assert_eq!(links[1].target, "beta.md");
    assert!(!links[1].exists);
}

#[test]
fn link_context_short_content() {
    let content = "abc [[target]] xyz";
    assert_eq!(get_link_context(content, "target"), content);
    assert_eq!(get_link_context(content, "absent"), "");
}

#[test]
fn link_context_elides_long_content() {
    let content = format!("{}[[x]]{}", "a".repeat(60), "b".repeat(60));
    let got = get_link_context(&content, "x");
    let expected = format!("...{}[[x]]{}...", "a".repeat(50), "b".repeat(50));
    assert_eq!(got, expected);
}

#[test]
fn link_context_piped_link() {
    let content = "start [[x|display]] end";
    assert_eq!(get_link_context(content, "x"), content);
}

#[test]
fn note_existence_resolution() {
    let standalone = vec!["my-note.md".to_string()];
    let daily = vec!["2024-01-05.md".to_string()];
    assert_eq!(note_exists("My Note", &standalone, &daily), (true, "my-note.md".to_string()));
    assert_eq!(
        note_exists("2024-01-05", &standalone, &daily),
        (true, "2024-01-05.md".to_string())
    );
    assert_eq!(
        note_exists("2024-01-05.md", &standalone, &daily),
        (true, "2024-01-05.md".to_string())
    );
    assert_eq!(note_exists("Missing", &standalone, &daily), (false, "missing.md".to_string()));
}

#[test]
fn zeroize_clears_buffer() {
    let mut buf = vec![1u8, 2, 3, 255];
    zeroize(&mut buf);
    assert_eq!(buf, vec![0u8, 0, 0, 0]);
}

#[test]
fn calendar_permissions() {
    assert_eq!(CalendarPermission::from(3), CalendarPermission::Authorized);
    assert_eq!(CalendarPermission::from(4), CalendarPermission::FullAccess);
    assert_eq!(CalendarPermission::from(0), CalendarPermission::NotDetermined);
    assert_eq!(CalendarPermission::from(99), CalendarPermission::NotDetermined);
    assert!(is_authorized(CalendarPermission::Authorized));
    assert!(is_authorized(CalendarPermission::FullAccess));
    assert!(!is_authorized(CalendarPermission::Denied));
    assert!(!is_authorized(CalendarPermission::NotDetermined));
}

#[test]
fn dollar_splitting() {
    assert_eq!(split_dollar("a$b$c"), vec!["a".to_string(), "b".to_string(), "c".to_string()]);
    assert_eq!(split_dollar(""), vec!["".to_string()]);
    assert_eq!(
        split_dollar("$$"),
        vec!["".to_string(), "".to_string(), "".to_string()]
    );
    assert_eq!(split_dollar("plain"), vec!["plain".to_string()]);
}
