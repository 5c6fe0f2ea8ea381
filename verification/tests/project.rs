use arspec::project::parser::{parse, Class};
use arspec::project::{is_source_file, locate_candidates, locate_choice, Configuration, Project};
use arspec::source::Text;

#[test]
fn configuration_parses_fields() {
    let text = Text::new(
        "project.txt",
        "ProjectName: \"Alpha \\\"Beta\\\"\"\nProjectVersion: \"1.2.3\"\nProjectDescription: \"Tab\\there\"\n",
    );
    let c = parse(&text).ok().unwrap();
    assert_eq!(c.name, "Alpha \"Beta\"");
    assert_eq!(c.version, "1.2.3");
    assert_eq!(c.description, Some("Tab\there".to_string()));
}

#[test]
fn configuration_defaults() {
    let text = Text::new("project.txt", "   \n");
    let c = parse(&text).ok().unwrap();
    assert_eq!(c.name, "New Project");
    assert_eq!(c.version, "0.1.0");
    assert_eq!(c.description, None);
}

#[test]
fn configuration_errors() {
    let text = Text::new("project.txt", "ProjectName \"x\"");
    let e = parse(&text).err().unwrap();
    assert_eq!(e.expected, vec![Class::Colon]);
    assert_eq!(e.actual.unwrap().class, Class::String);

    let text = Text::new("project.txt", "ProjectName:");
    let e = parse(&text).err().unwrap();
    assert_eq!(e.expected, vec![Class::String]);
    assert!(e.actual.is_none());

    let text = Text::new("project.txt", "Bogus: \"x\"\n");
    let e = parse(&text).err().unwrap();
    assert_eq!(
        e.expected,
        vec![Class::ProjectDescription, Class::ProjectName, Class::ProjectVersion]
    );
    assert_eq!(e.actual.unwrap().class, Class::UnknownSymbol);

    let text = Text::new("project.txt", "ProjectName: \"a\\qb\"\n");
    let e = parse(&text).err().unwrap();
    assert_eq!(e.actual.unwrap().class, Class::InvalidStringEscape);
}

#[test]
fn configuration_text_round_trip() {
    let mut c = Configuration::new("My \"Quoted\" Project");
    c.description = Some("About it".to_string());
    let written = c.to_text();
    assert_eq!(
        written,
        "ProjectName: \"My \\\"Quoted\\\" Project\"\nProjectVersion: \"0.1.0\"ProjectDescription: \"About it\"\n"
    );
    let text = Text::new("project.txt", &written);
    let read = parse(&text).ok().unwrap();
    assert_eq!(read.name, c.name);
    assert_eq!(read.version, c.version);
    assert_eq!(read.description, c.description);
}

#[test]
fn project_paths() {
    let p = Project::open("/tmp/p".to_string(), Configuration::new("P"));
    assert_eq!(p.root(), "/tmp/p");
    assert_eq!(p.target(), "/tmp/p/target");
    assert_eq!(p.configuration().name, "P");
    let p = Project::open("/tmp/p/".to_string(), Configuration::new("P"));
    assert_eq!(p.target(), "/tmp/p/target");
    let p = Project::open(String::new(), Configuration::new("P"));
    assert_eq!(p.target(), "target");
}

#[test]
fn source_files() {
    assert!(is_source_file("alpha.ahfs"));
    assert!(is_source_file("a.ahfs"));
    assert!(!is_source_file(".ahfs"));
    assert!(!is_source_file("alpha.ahf"));
    assert!(!is_source_file("project.txt"));
}

#[test]
fn locate_searches_parents_nearest_first() {
    assert_eq!(locate_candidates("a/b/c"), vec!["a/b/c", "a/b", "a", ""]);
    assert_eq!(locate_candidates("/x/y"), vec!["/x/y", "/x", "/"]);
    assert_eq!(locate_candidates("."), vec![".", ""]);
    assert_eq!(locate_candidates(""), vec![""]);
}

#[test]
fn locate_chooses_nearest_project_file() {
    assert_eq!(locate_choice(&[false, true, true]), Some(1));
    assert_eq!(locate_choice(&[true]), Some(0));
    assert_eq!(locate_choice(&[false, false]), None);
    assert_eq!(locate_choice(&[]), None);
}
